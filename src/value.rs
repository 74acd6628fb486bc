use vstd::prelude::*;
use crate::number::{Double, is_zero_bits};
use crate::text::{push_char, push_text, quote, quoted};

verus! {

broadcast use vstd::std_specs::vec::axiom_vec_index_decreases;

/// The mathematical shape of a `Value`: the same five variants over
/// sequences. A number is its bit pattern and its literal text.
pub enum Model {
    Nil,
    Number(u64, Seq<char>),
    Array(Seq<Model>),
    Boolean(bool),
    Str(Seq<char>),
}

/// A value of the scripting runtime.
#[derive(Debug)]
pub enum Value {
    Nil,
    Number(Double),
    Array(Vec<Value>),
    Boolean(bool),
    String(String),
}

/// The models of a sequence of values, element by element.
pub open spec fn models(s: Seq<Value>) -> Seq<Model>
    decreases s,
{
    if s.len() == 0 {
        Seq::empty()
    } else {
        models(s.drop_last()).push(s.last().model())
    }
}

/// Whether a value is empty in the runtime's sense.
pub open spec fn model_is_empty(m: Model) -> bool {
    match m {
        Model::Nil => true,
        Model::Number(bits, _) => is_zero_bits(bits),
        Model::Array(a) => a.len() == 0,
        Model::Boolean(b) => !b,
        Model::Str(s) => s.len() == 0,
    }
}

/// The literal text of a value: `null`, the number's text, `true` or
/// `false`, a quoted string, or the elements' texts joined by commas
/// between brackets.
pub open spec fn fmt(m: Model) -> Seq<char>
    decreases m,
{
    match m {
        Model::Nil => seq!['n', 'u', 'l', 'l'],
        Model::Number(_, text) => text,
        Model::Array(a) => seq!['['] + fmt_list(a) + seq![']'],
        Model::Boolean(b) => if b {
            seq!['t', 'r', 'u', 'e']
        } else {
            seq!['f', 'a', 'l', 's', 'e']
        },
        Model::Str(s) => quoted(s),
    }
}

/// The literal texts of a sequence of values, joined by commas.
pub open spec fn fmt_list(a: Seq<Model>) -> Seq<char>
    decreases a,
{
    if a.len() == 0 {
        Seq::empty()
    } else if a.len() == 1 {
        fmt(a[0])
    } else {
        fmt_list(a.drop_last()) + seq![','] + fmt(a.last())
    }
}

impl Value {
    pub open spec fn model(&self) -> Model
        decreases self,
    {
        match self {
            Value::Nil => Model::Nil,
            Value::Number(d) => Model::Number(d.bits, d.text@),
            Value::Array(a) => Model::Array(models(a@)),
            Value::Boolean(b) => Model::Boolean(*b),
            Value::String(s) => Model::Str(s@),
        }
    }
}

impl Value {
    #[must_use]
    pub fn as_null(&self) -> (r: Option<()>)
        ensures
            r is Some <==> self.model() is Nil,
    {
        match self {
            Value::Nil => Some(()),
            _ => None,
        }
    }

    #[must_use]
    pub fn is_nil(&self) -> (r: bool)
        ensures
            r == self.model() is Nil,
    {
        self.as_null().is_some()
    }

    /// The number held, as a double.
    #[must_use]
    pub fn as_f64(&self) -> (r: Option<&Double>)
        ensures
            r is Some <==> self.model() is Number,
            r matches Some(d) ==> self.model() == Model::Number(d.bits, d.text@),
    {
        match self {
            Value::Number(d) => Some(d),
            _ => None,
        }
    }

    #[must_use]
    pub fn is_number(&self) -> (r: bool)
        ensures
            r == self.model() is Number,
    {
        self.as_f64().is_some()
    }

    #[must_use]
    pub fn as_vec(&self) -> (r: Option<&Vec<Value>>)
        ensures
            r is Some <==> self.model() is Array,
            r matches Some(v) ==> self.model() == Model::Array(models(v@)),
    {
        match self {
            Value::Array(v) => Some(v),
            _ => None,
        }
    }

    #[must_use]
    pub fn is_array(&self) -> (r: bool)
        ensures
            r == self.model() is Array,
    {
        self.as_vec().is_some()
    }

    #[must_use]
    pub fn as_bool(&self) -> (r: Option<bool>)
        ensures
            r == (match self.model() {
                Model::Boolean(b) => Some(b),
                _ => None,
            }),
    {
        match self {
            Value::Boolean(b) => Some(*b),
            _ => None,
        }
    }

    #[must_use]
    pub fn is_boolean(&self) -> (r: bool)
        ensures
            r == self.model() is Boolean,
    {
        self.as_bool().is_some()
    }

    #[must_use]
    pub fn as_str(&self) -> (r: Option<&str>)
        ensures
            r is Some <==> self.model() is Str,
            r matches Some(s) ==> self.model() == Model::Str(s@),
    {
        match self {
            Value::String(s) => Some(s.as_str()),
            _ => None,
        }
    }

    #[must_use]
    pub fn is_string(&self) -> (r: bool)
        ensures
            r == self.model() is Str,
    {
        self.as_str().is_some()
    }

    /// Emptiness in the runtime's sense: nil always; a number when it is zero;
    /// a boolean when false; a string or an array when it has no elements.
    #[must_use]
    pub fn is_empty(&self) -> (r: bool)
        ensures
            r == model_is_empty(self.model()),
    {
        match self {
            Value::Nil => true,
            Value::Number(d) => d.is_zero(),
            Value::Array(a) => a.len() == 0,
            Value::Boolean(b) => !*b,
            Value::String(s) => s.as_str().is_empty(),
        }
    }
}

impl Value {
    /// The literal text of the value, as the runtime's parser reads it.
    pub fn to_string(&self) -> (r: String)
        ensures
            r@ == fmt(self.model()),
        decreases self,
    {
        match self {
            Value::Nil => {
                proof {
                    reveal_strlit("null");
                }
                "null".to_owned()
            },
            Value::Number(d) => d.text.clone(),
            Value::Array(a) => {
                proof {
                    lemma_models(a@);
                }
                let mut out = String::new();
                push_char(&mut out, '[');
                let mut i: usize = 0;
                while i < a.len()
                    invariant
                        *self == Value::Array(*a),
                        i <= a@.len(),
                        models(a@).len() == a@.len(),
                        forall|j: int| 0 <= j < a@.len() ==> #[trigger] models(a@)[j] == a@[j].model(),
                        out@ == seq!['['] + fmt_list(models(a@).subrange(0, i as int)),
                    decreases a@.len() - i,
                {
                    if i > 0 {
                        push_char(&mut out, ',');
                    }
                    proof {
                        assert(decreases_to!(*self => (*self)->Array_0));
                        assert(decreases_to!(*a => a[i as int]));
                    }
                    let t = a[i].to_string();
                    push_text(&mut out, t.as_str());
                    let ghost ms = models(a@).subrange(0, i + 1);
                    assert(ms.drop_last() == models(a@).subrange(0, i as int));
                    assert(ms.last() == a@[i as int].model());
                    i = i + 1;
                }
                assert(models(a@).subrange(0, a@.len() as int) == models(a@));
                push_char(&mut out, ']');
                out
            },
            Value::Boolean(b) => {
                proof {
                    reveal_strlit("true");
                    reveal_strlit("false");
                }
                if *b {
                    "true".to_owned()
                } else {
                    "false".to_owned()
                }
            },
            Value::String(s) => quote(s.as_str()),
        }
    }
}

impl Clone for Value {
    fn clone(&self) -> (r: Value)
        ensures
            r.model() == self.model(),
        decreases self,
    {
        match self {
            Value::Nil => Value::Nil,
            Value::Number(d) => Value::Number(d.clone()),
            Value::Array(a) => {
                proof {
                    lemma_models(a@);
                }
                let mut out: Vec<Value> = Vec::new();
                let mut i: usize = 0;
                while i < a.len()
                    invariant
                        *self == Value::Array(*a),
                        i <= a@.len(),
                        out@.len() == i,
                        models(a@).len() == a@.len(),
                        forall|j: int| 0 <= j < a@.len() ==> #[trigger] models(a@)[j] == a@[j].model(),
                        forall|j: int| 0 <= j < i ==> #[trigger] out@[j].model() == a@[j].model(),
                    decreases a@.len() - i,
                {
                    proof {
                        assert(decreases_to!(*self => (*self)->Array_0));
                        assert(decreases_to!(*a => a[i as int]));
                    }
                    let e = a[i].clone();
                    out.push(e);
                    i = i + 1;
                }
                proof {
                    lemma_models(out@);
                    assert(models(out@) == models(a@));
                }
                Value::Array(out)
            },
            Value::Boolean(b) => Value::Boolean(*b),
            Value::String(s) => Value::String(s.clone()),
        }
    }
}

/// Every value is of exactly one of the five kinds: exactly one of the
/// `is_*` tests holds of it, and exactly one `as_*` accessor finds a
/// payload, the one paired with that test.
pub proof fn lemma_exactly_one_kind(v: Value)
    ensures
        (if v.model() is Nil { 1int } else { 0 }) + (if v.model() is Number { 1int } else { 0 })
            + (if v.model() is Array { 1int } else { 0 }) + (if v.model() is Boolean { 1int } else { 0 })
            + (if v.model() is Str { 1int } else { 0 }) == 1,
{
}

pub proof fn lemma_models(s: Seq<Value>)
    ensures
        models(s).len() == s.len(),
        forall|i: int| 0 <= i < s.len() ==> #[trigger] models(s)[i] == s[i].model(),
    decreases s.len(),
{
    if s.len() > 0 {
        lemma_models(s.drop_last());
    }
}

} // verus!
