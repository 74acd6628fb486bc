use vstd::prelude::*;
use core::cmp::Ordering;
use crate::number::{double_cmp, double_eq};
use crate::value::{Model, Value, lemma_models, models};

verus! {

broadcast use vstd::std_specs::vec::axiom_vec_index_decreases;

/// Structural equality: the same variant with equal payloads, where numbers
/// are equal as doubles and arrays element by element.
pub open spec fn model_eq(a: Model, b: Model) -> bool
    decreases a,
{
    match (a, b) {
        (Model::Nil, Model::Nil) => true,
        (Model::Number(x, _), Model::Number(y, _)) => double_eq(x, y),
        (Model::Array(s), Model::Array(t)) => s.len() == t.len() && forall|i: int|
            0 <= i < s.len() ==> model_eq(#[trigger] s[i], t[i]),
        (Model::Boolean(x), Model::Boolean(y)) => x == y,
        (Model::Str(s), Model::Str(t)) => s == t,
        _ => false,
    }
}

/// The place of a variant in the order of variants.
pub open spec fn rank(m: Model) -> int {
    match m {
        Model::Nil => 0,
        Model::Number(..) => 1,
        Model::Array(..) => 2,
        Model::Boolean(..) => 3,
        Model::Str(..) => 4,
    }
}

/// The order of two integers.
pub open spec fn int_cmp(a: int, b: int) -> Ordering {
    if a < b {
        Ordering::Less
    } else if a > b {
        Ordering::Greater
    } else {
        Ordering::Equal
    }
}

/// Lexicographic order of texts, character by character.
pub open spec fn text_cmp(s: Seq<char>, t: Seq<char>) -> Ordering
    decreases s.len(),
{
    if s.len() == 0 || t.len() == 0 {
        int_cmp(s.len() as int, t.len() as int)
    } else if s[0] < t[0] {
        Ordering::Less
    } else if s[0] > t[0] {
        Ordering::Greater
    } else {
        text_cmp(s.drop_first(), t.drop_first())
    }
}

/// Structural order: by variant first, then by payload, where numbers
/// compare as doubles, `false` comes before `true`, and texts and arrays
/// compare lexicographically. Values holding a NaN where the comparison
/// reaches it are unordered.
pub open spec fn model_cmp(a: Model, b: Model) -> Option<Ordering>
    decreases a,
{
    if rank(a) != rank(b) {
        Some(int_cmp(rank(a), rank(b)))
    } else {
        match (a, b) {
            (Model::Number(x, _), Model::Number(y, _)) => double_cmp(x, y),
            (Model::Array(s), Model::Array(t)) => list_cmp(s, t),
            (Model::Boolean(x), Model::Boolean(y)) => Some(
                int_cmp(if x { 1 } else { 0 }, if y { 1 } else { 0 }),
            ),
            (Model::Str(s), Model::Str(t)) => Some(text_cmp(s, t)),
            _ => Some(Ordering::Equal),
        }
    }
}

/// Lexicographic order of arrays: the first pair of elements that are not
/// equal decides; where one array is a prefix of the other, the shorter
/// comes first.
pub open spec fn list_cmp(s: Seq<Model>, t: Seq<Model>) -> Option<Ordering>
    decreases s,
{
    if s.len() == 0 || t.len() == 0 {
        Some(int_cmp(s.len() as int, t.len() as int))
    } else {
        match model_cmp(s[0], t[0]) {
            Some(Ordering::Equal) => list_cmp(s.drop_first(), t.drop_first()),
            o => o,
        }
    }
}

fn compare_text(s: &str, t: &str) -> (r: Ordering)
    ensures
        r == text_cmp(s@, t@),
{
    let n = s.unicode_len();
    let m = t.unicode_len();
    let mut i: usize = 0;
    assert(s@.subrange(0, n as int) == s@);
    assert(t@.subrange(0, m as int) == t@);
    while i < n && i < m
        invariant
            n == s@.len(),
            m == t@.len(),
            i <= n,
            i <= m,
            text_cmp(s@, t@) == text_cmp(s@.subrange(i as int, n as int), t@.subrange(i as int, m as int)),
        decreases n - i,
    {
        let a = s.get_char(i);
        let b = t.get_char(i);
        proof {
            let ss = s@.subrange(i as int, n as int);
            let ts = t@.subrange(i as int, m as int);
            assert(ss.drop_first() == s@.subrange(i + 1, n as int));
            assert(ts.drop_first() == t@.subrange(i + 1, m as int));
        }
        if a < b {
            return Ordering::Less;
        } else if a > b {
            return Ordering::Greater;
        }
        i = i + 1;
    }
    if n < m {
        Ordering::Less
    } else if n > m {
        Ordering::Greater
    } else {
        Ordering::Equal
    }
}

impl PartialEq for Value {
    fn eq(&self, other: &Value) -> (r: bool)
        decreases self,
    {
        match (self, other) {
            (Value::Nil, Value::Nil) => true,
            (Value::Number(x), Value::Number(y)) => x.eq(y),
            (Value::Array(a), Value::Array(b)) => {
                proof {
                    lemma_models(a@);
                    lemma_models(b@);
                }
                if a.len() != b.len() {
                    return false;
                }
                let mut i: usize = 0;
                while i < a.len()
                    invariant
                        *self == Value::Array(*a),
                        *other == Value::Array(*b),
                        a@.len() == b@.len(),
                        i <= a@.len(),
                        models(a@).len() == a@.len(),
                        models(b@).len() == b@.len(),
                        forall|j: int| 0 <= j < a@.len() ==> #[trigger] models(a@)[j] == a@[j].model(),
                        forall|j: int| 0 <= j < b@.len() ==> #[trigger] models(b@)[j] == b@[j].model(),
                        forall|j: int| 0 <= j < i ==> model_eq(#[trigger] models(a@)[j], models(b@)[j]),
                    decreases a@.len() - i,
                {
                    proof {
                        assert(decreases_to!(*self => (*self)->Array_0));
                        assert(decreases_to!(*a => a[i as int]));
                    }
                    if !a[i].eq(&b[i]) {
                        assert(!model_eq(models(a@)[i as int], models(b@)[i as int]));
                        return false;
                    }
                    i = i + 1;
                }
                true
            },
            (Value::Boolean(x), Value::Boolean(y)) => *x == *y,
            (Value::String(x), Value::String(y)) => x.eq(y),
            _ => false,
        }
    }
}

impl vstd::std_specs::cmp::PartialEqSpecImpl for Value {
    open spec fn obeys_eq_spec() -> bool {
        true
    }

    open spec fn eq_spec(&self, other: &Value) -> bool {
        model_eq(self.model(), other.model())
    }
}

impl Value {
    /// The place of the value's variant in the order of variants.
    fn rank(&self) -> (r: u8)
        ensures
            r as int == rank(self.model()),
    {
        match self {
            Value::Nil => 0,
            Value::Number(_) => 1,
            Value::Array(_) => 2,
            Value::Boolean(_) => 3,
            Value::String(_) => 4,
        }
    }
}

impl PartialOrd for Value {
    fn partial_cmp(&self, other: &Value) -> (r: Option<Ordering>)
        decreases self,
    {
        let (p, q) = (self.rank(), other.rank());
        if p < q {
            return Some(Ordering::Less);
        } else if p > q {
            return Some(Ordering::Greater);
        }
        match (self, other) {
            (Value::Number(x), Value::Number(y)) => x.compare(y),
            (Value::Array(a), Value::Array(b)) => {
                proof {
                    lemma_models(a@);
                    lemma_models(b@);
                }
                let mut i: usize = 0;
                assert(models(a@).subrange(0, a@.len() as int) == models(a@));
                assert(models(b@).subrange(0, b@.len() as int) == models(b@));
                while i < a.len() && i < b.len()
                    invariant
                        *self == Value::Array(*a),
                        *other == Value::Array(*b),
                        i <= a@.len(),
                        i <= b@.len(),
                        models(a@).len() == a@.len(),
                        models(b@).len() == b@.len(),
                        forall|j: int| 0 <= j < a@.len() ==> #[trigger] models(a@)[j] == a@[j].model(),
                        forall|j: int| 0 <= j < b@.len() ==> #[trigger] models(b@)[j] == b@[j].model(),
                        list_cmp(models(a@), models(b@)) == list_cmp(
                            models(a@).subrange(i as int, a@.len() as int),
                            models(b@).subrange(i as int, b@.len() as int),
                        ),
                    decreases a@.len() - i,
                {
                    proof {
                        assert(decreases_to!(*self => (*self)->Array_0));
                        assert(decreases_to!(*a => a[i as int]));
                        let ss = models(a@).subrange(i as int, a@.len() as int);
                        let ts = models(b@).subrange(i as int, b@.len() as int);
                        assert(ss.drop_first() == models(a@).subrange(i + 1, a@.len() as int));
                        assert(ts.drop_first() == models(b@).subrange(i + 1, b@.len() as int));
                        assert(ss[0] == a@[i as int].model());
                        assert(ts[0] == b@[i as int].model());
                    }
                    let o = a[i].partial_cmp(&b[i]);
                    match o {
                        Some(Ordering::Equal) => {},
                        _ => {
                            return o;
                        },
                    }
                    i = i + 1;
                }
                if a.len() < b.len() {
                    Some(Ordering::Less)
                } else if a.len() > b.len() {
                    Some(Ordering::Greater)
                } else {
                    Some(Ordering::Equal)
                }
            },
            (Value::Boolean(x), Value::Boolean(y)) => {
                if !*x && *y {
                    Some(Ordering::Less)
                } else if *x && !*y {
                    Some(Ordering::Greater)
                } else {
                    Some(Ordering::Equal)
                }
            },
            (Value::String(x), Value::String(y)) => Some(compare_text(x.as_str(), y.as_str())),
            _ => Some(Ordering::Equal),
        }
    }
}

impl vstd::std_specs::cmp::PartialOrdSpecImpl for Value {
    open spec fn obeys_partial_cmp_spec() -> bool {
        true
    }

    open spec fn partial_cmp_spec(&self, other: &Value) -> Option<Ordering> {
        model_cmp(self.model(), other.model())
    }
}

} // verus!
