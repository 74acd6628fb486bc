use vstd::prelude::*;
use crate::number::{Double, decimal, int_bits_of};
use crate::value::{Model, Value, lemma_models, models};

verus! {

/// A native type that converts into a runtime value.
pub trait IntoArma {
    /// The model of the value that `self` converts into.
    spec fn arma(&self) -> Model;

    fn to_arma(&self) -> (r: Value)
        ensures
            r.model() == self.arma(),
    ;
}

/// The models of converting each element of `s`, in order.
pub open spec fn armas<T: IntoArma>(s: Seq<T>) -> Seq<Model> {
    s.map_values(|e: T| e.arma())
}

impl Value {
    /// Converts anything convertible into a value.
    pub fn from<T: IntoArma>(t: T) -> (r: Value)
        ensures
            r.model() == t.arma(),
    {
        t.to_arma()
    }
}

/// Converts each element of `s` into a value, in order.
fn convert_all<T: IntoArma>(s: &[T]) -> (r: Vec<Value>)
    ensures
        models(r@) == armas(s@),
{
    let mut out: Vec<Value> = Vec::new();
    let mut i: usize = 0;
    while i < s.len()
        invariant
            i <= s@.len(),
            out@.len() == i,
            forall|j: int| 0 <= j < i ==> #[trigger] out@[j].model() == s@[j].arma(),
        decreases s@.len() - i,
    {
        let v = s[i].to_arma();
        out.push(v);
        i = i + 1;
    }
    proof {
        lemma_models(out@);
        assert(models(out@) == armas(s@));
    }
    out
}

impl IntoArma for Vec<Value> {
    open spec fn arma(&self) -> Model {
        Model::Array(models(self@))
    }

    fn to_arma(&self) -> (r: Value) {
        let mut out: Vec<Value> = Vec::new();
        let mut i: usize = 0;
        proof {
            lemma_models(self@);
        }
        while i < self.len()
            invariant
                i <= self@.len(),
                out@.len() == i,
                models(self@).len() == self@.len(),
                forall|j: int| 0 <= j < self@.len() ==> #[trigger] models(self@)[j] == self@[j].model(),
                forall|j: int| 0 <= j < i ==> #[trigger] out@[j].model() == self@[j].model(),
            decreases self@.len() - i,
        {
            let v = self[i].clone();
            out.push(v);
            i = i + 1;
        }
        proof {
            lemma_models(out@);
            assert(models(out@) == models(self@));
        }
        Value::Array(out)
    }
}

impl<T: IntoArma> IntoArma for Vec<T> {
    open spec fn arma(&self) -> Model {
        Model::Array(armas(self@))
    }

    fn to_arma(&self) -> (r: Value) {
        Value::Array(convert_all(self.as_slice()))
    }
}

impl<T: IntoArma> IntoArma for &[T] {
    open spec fn arma(&self) -> Model {
        Model::Array(armas(self@))
    }

    fn to_arma(&self) -> (r: Value) {
        Value::Array(convert_all(*self))
    }
}

impl IntoArma for String {
    open spec fn arma(&self) -> Model {
        Model::Str(self@)
    }

    fn to_arma(&self) -> (r: Value) {
        Value::String(self.clone())
    }
}

impl IntoArma for &'static str {
    open spec fn arma(&self) -> Model {
        Model::Str((*self)@)
    }

    fn to_arma(&self) -> (r: Value) {
        Value::String((*self).to_owned())
    }
}

impl IntoArma for bool {
    open spec fn arma(&self) -> Model {
        Model::Boolean(*self)
    }

    fn to_arma(&self) -> (r: Value) {
        Value::Boolean(*self)
    }
}

impl<T: IntoArma> IntoArma for Option<T> {
    open spec fn arma(&self) -> Model {
        match self {
            Some(v) => v.arma(),
            None => Model::Nil,
        }
    }

    fn to_arma(&self) -> (r: Value) {
        match self {
            Some(v) => v.to_arma(),
            None => Value::Nil,
        }
    }
}

impl IntoArma for i8 {
    open spec fn arma(&self) -> Model {
        Model::Number(int_bits_of(*self as int), decimal(*self as int))
    }

    fn to_arma(&self) -> (r: Value) {
        Value::Number(Double::from_int(*self as i32))
    }
}

impl IntoArma for i16 {
    open spec fn arma(&self) -> Model {
        Model::Number(int_bits_of(*self as int), decimal(*self as int))
    }

    fn to_arma(&self) -> (r: Value) {
        Value::Number(Double::from_int(*self as i32))
    }
}

impl IntoArma for i32 {
    open spec fn arma(&self) -> Model {
        Model::Number(int_bits_of(*self as int), decimal(*self as int))
    }

    fn to_arma(&self) -> (r: Value) {
        Value::Number(Double::from_int(*self))
    }
}

/// Converting a sequence gives an array of the elements' conversions, in
/// their order.
pub proof fn lemma_sequence_in_order<T: IntoArma>(s: Vec<T>)
    ensures
        s.arma() is Array,
        s.arma()->Array_0.len() == s@.len(),
        forall|i: int| 0 <= i < s@.len() ==> s.arma()->Array_0[i] == #[trigger] s@[i].arma(),
{
}

/// Converting a sequence of integers gives an array of numbers that stand
/// for the integers, in their order.
pub proof fn lemma_integers_in_order(s: Vec<i32>)
    ensures
        s.arma() is Array,
        s.arma()->Array_0.len() == s@.len(),
        forall|i: int|
            0 <= i < s@.len() ==> s.arma()->Array_0[i] == Model::Number(
                int_bits_of(#[trigger] s@[i] as int),
                decimal(s@[i] as int),
            ),
{
}

/// Converting a sequence of sequences gives an array of arrays, with the
/// structure and the order of both levels kept.
pub proof fn lemma_nested_sequences<T: IntoArma>(s: Vec<Vec<T>>)
    ensures
        s.arma() is Array,
        s.arma()->Array_0.len() == s@.len(),
        forall|i: int|
            0 <= i < s@.len() ==> {
                let inner = s.arma()->Array_0[i];
                &&& inner is Array
                &&& inner->Array_0.len() == (#[trigger] s@[i])@.len()
                &&& forall|j: int|
                    0 <= j < s@[i]@.len() ==> inner->Array_0[j] == #[trigger] s@[i]@[j].arma()
            },
{
}

/// An absent optional value converts to nil.
pub proof fn lemma_none_is_nil<T: IntoArma>()
    ensures
        None::<T>.arma() == Model::Nil,
{
}

/// A present optional value converts as the value itself does.
pub proof fn lemma_some_is_inner<T: IntoArma>(x: T)
    ensures
        Some(x).arma() == x.arma(),
{
}

} // verus!
