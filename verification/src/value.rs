//! The dynamic value tree that protocol messages are modelled as: null,
//! boolean, number, string, ordered list, and object with ordered entries.
//!
//! Numbers are held in fixed-point form: a value of `n` micro-units stands
//! for the number `n / 1_000_000`. This gives numeric comparison and deep
//! equality exact integer semantics.

use vstd::prelude::*;

verus! {

/// Mathematical model of a value tree, used by every contract in this crate.
#[verifier::ext_equal]
pub enum ValueView {
    Null,
    Bool(bool),
    Number(int),
    Str(Seq<char>),
    Arr(Seq<ValueView>),
    Obj(Seq<(Seq<char>, ValueView)>),
}

/// A JSON-like dynamic value. Object entries keep their insertion order;
/// deep equality does not depend on it.
pub enum Value {
    Null,
    Bool(bool),
    /// Fixed-point number: the held integer counts micro-units.
    Number(i64),
    String(String),
    Array(Vec<Value>),
    Object(Vec<(String, Value)>),
}

/// The views of the elements of an array, in order.
pub open spec fn arr_elems_view(s: Seq<Value>) -> Seq<ValueView>
    decreases s,
{
    Seq::new(
        s.len(),
        |i: int|
            if 0 <= i < s.len() {
                s[i]@
            } else {
                ValueView::Null
            },
    )
}

/// The views of the entries of an object, in order.
pub open spec fn obj_entries_view(s: Seq<(String, Value)>) -> Seq<(Seq<char>, ValueView)>
    decreases s,
{
    Seq::new(
        s.len(),
        |i: int|
            if 0 <= i < s.len() {
                (s[i].0@, s[i].1@)
            } else {
                (Seq::empty(), ValueView::Null)
            },
    )
}

impl View for Value {
    type V = ValueView;

    open spec fn view(&self) -> ValueView
        decreases self,
    {
        match self {
            Value::Null => ValueView::Null,
            Value::Bool(b) => ValueView::Bool(*b),
            Value::Number(n) => ValueView::Number(*n as int),
            Value::String(s) => ValueView::Str(s@),
            Value::Array(a) => ValueView::Arr(arr_elems_view(a@)),
            Value::Object(o) => ValueView::Obj(obj_entries_view(o@)),
        }
    }
}

impl DeepView for Value {
    type V = ValueView;

    open spec fn deep_view(&self) -> ValueView {
        self@
    }
}

/// First entry of `entries` whose key is `key`, if any: object lookup.
pub open spec fn obj_get(entries: Seq<(Seq<char>, ValueView)>, key: Seq<char>) -> Option<ValueView>
    decreases entries.len(),
{
    if entries.len() == 0 {
        None
    } else if entries[0].0 == key {
        Some(entries[0].1)
    } else {
        obj_get(entries.drop_first(), key)
    }
}

/// `obj_get` restated on a suffix: stepping one entry forward.
proof fn lemma_obj_get_step(entries: Seq<(Seq<char>, ValueView)>, key: Seq<char>, i: int)
    requires
        0 <= i < entries.len(),
        entries[i].0 != key,
    ensures
        obj_get(entries.skip(i), key) == obj_get(entries.skip(i + 1), key),
{
    assert(entries.skip(i)[0] == entries[i]);
    assert(entries.skip(i).drop_first() =~= entries.skip(i + 1));
}

/// Deep structural equality: numbers by numeric value, arrays element-wise in
/// order, objects by key lookup with order irrelevant, mismatched kinds never
/// equal.
pub open spec fn deep_eq(a: ValueView, b: ValueView) -> bool
    decreases a,
{
    match (a, b) {
        (ValueView::Null, ValueView::Null) => true,
        (ValueView::Bool(x), ValueView::Bool(y)) => x == y,
        (ValueView::Number(x), ValueView::Number(y)) => x == y,
        (ValueView::Str(x), ValueView::Str(y)) => x == y,
        (ValueView::Arr(x), ValueView::Arr(y)) => {
            &&& x.len() == y.len()
            &&& forall|i: int| 0 <= i < x.len() ==> deep_eq(#[trigger] x[i], y[i])
        },
        (ValueView::Obj(x), ValueView::Obj(y)) => {
            &&& x.len() == y.len()
            &&& forall|i: int|
                0 <= i < x.len() ==> match obj_get(y, (#[trigger] x[i]).0) {
                    Some(bv) => deep_eq(x[i].1, bv),
                    None => false,
                }
        },
        _ => false,
    }
}

/// Numbers are deep-equal exactly when they hold the same count of
/// micro-units: a whole number and a fractional number built from the same
/// numeric value are one and the same to deep equality.
pub proof fn lemma_number_deep_eq(a: int, b: int)
    ensures
        deep_eq(ValueView::Number(a), ValueView::Number(b)) == (a == b),
{
}

impl Value {
    /// Object lookup on a list of entries: the first one with the given key.
    pub fn entry<'a>(entries: &'a Vec<(String, Value)>, key: &String) -> (r: Option<&'a Value>)
        ensures
            match r {
                Some(v) => obj_get(obj_entries_view(entries@), key@) == Some(v@),
                None => obj_get(obj_entries_view(entries@), key@) is None,
            },
    {
        let ghost evs = obj_entries_view(entries@);
        proof {
            assert(evs.skip(0) =~= evs);
        }
        let n: usize = entries.len();
        let mut i: usize = 0;
        while i < n
            invariant
                evs == obj_entries_view(entries@),
                n == entries@.len(),
                evs.len() == n,
                0 <= i <= n,
                obj_get(evs, key@) == obj_get(evs.skip(i as int), key@),
            decreases n - i,
        {
            assert(evs.skip(i as int)[0] == evs[i as int]);
            if entries[i].0.eq(key) {
                return Some(&entries[i].1);
            }
            proof {
                lemma_obj_get_step(evs, key@, i as int);
            }
            i = i + 1;
        }
        assert(evs.skip(n as int) =~= Seq::empty());
        None
    }

    /// Object lookup keyed by a character sequence.
    pub fn entry_chars<'a>(entries: &'a Vec<(String, Value)>, key: &Vec<char>) -> (r: Option<
        &'a Value,
    >)
        ensures
            match r {
                Some(v) => obj_get(obj_entries_view(entries@), key@) == Some(v@),
                None => obj_get(obj_entries_view(entries@), key@) is None,
            },
    {
        let ghost evs = obj_entries_view(entries@);
        proof {
            assert(evs.skip(0) =~= evs);
        }
        let n: usize = entries.len();
        let mut i: usize = 0;
        while i < n
            invariant
                evs == obj_entries_view(entries@),
                n == entries@.len(),
                evs.len() == n,
                0 <= i <= n,
                obj_get(evs, key@) == obj_get(evs.skip(i as int), key@),
            decreases n - i,
        {
            assert(evs.skip(i as int)[0] == evs[i as int]);
            if crate::text::str_eq_chars(entries[i].0.as_str(), key) {
                return Some(&entries[i].1);
            }
            proof {
                lemma_obj_get_step(evs, key@, i as int);
            }
            i = i + 1;
        }
        assert(evs.skip(n as int) =~= Seq::empty());
        None
    }

    /// The number value holding the given count of micro-units.
    pub fn from_micros(m: i64) -> (r: Value)
        ensures
            r@ == ValueView::Number(m as int),
    {
        Value::Number(m)
    }

    /// The number value for a whole integer.
    pub fn from_int(i: i64) -> (r: Value)
        requires
            -9223372036854 <= i <= 9223372036854,
        ensures
            r@ == ValueView::Number(i * 1000000),
    {
        Value::Number(i * 1000000)
    }

    /// The numeric content of this value, in micro-units, if it is a number.
    pub fn as_number(&self) -> (r: Option<i64>)
        ensures
            match r {
                Some(m) => self@ == ValueView::Number(m as int),
                None => !(self@ is Number),
            },
    {
        match self {
            Value::Number(m) => Some(*m),
            _ => None,
        }
    }

    /// The string content of this value, if it is a string.
    pub fn as_str(&self) -> (r: Option<&String>)
        ensures
            match r {
                Some(s) => self@ == ValueView::Str(s@),
                None => !(self@ is Str),
            },
    {
        match self {
            Value::String(s) => Some(s),
            _ => None,
        }
    }

    /// A structurally identical copy of this value.
    #[verifier::loop_isolation(false)]
    pub fn deep_copy(&self) -> (r: Value)
        ensures
            r@ == self@,
        decreases *self,
    {
        match self {
            Value::Null => Value::Null,
            Value::Bool(b) => Value::Bool(*b),
            Value::Number(n) => Value::Number(*n),
            Value::String(s) => Value::String(s.clone()),
            Value::Array(a) => {
                let n: usize = a.len();
                let mut out: Vec<Value> = Vec::new();
                let mut i: usize = 0;
                while i < n
                    invariant
                        n == a@.len(),
                        0 <= i <= n,
                        out@.len() == i,
                        forall|j: int| 0 <= j < i ==> (#[trigger] out@[j])@ == a@[j]@,
                    decreases n - i,
                {
                    out.push(a[i].deep_copy());
                    i = i + 1;
                }
                proof {
                    assert(arr_elems_view(out@) =~= arr_elems_view(a@));
                }
                Value::Array(out)
            },
            Value::Object(o) => {
                let n: usize = o.len();
                let mut out: Vec<(String, Value)> = Vec::new();
                let mut i: usize = 0;
                while i < n
                    invariant
                        n == o@.len(),
                        0 <= i <= n,
                        out@.len() == i,
                        forall|j: int|
                            0 <= j < i ==> (#[trigger] out@[j]).0@ == o@[j].0@ && out@[j].1@
                                == o@[j].1@,
                    decreases n - i,
                {
                    out.push((o[i].0.clone(), o[i].1.deep_copy()));
                    i = i + 1;
                }
                proof {
                    assert(obj_entries_view(out@) =~= obj_entries_view(o@));
                }
                Value::Object(out)
            },
        }
    }
}

/// Deep structural equality of two values, per the model's `deep_eq`.
#[verifier::loop_isolation(false)]
pub fn values_deep_equal(a: &Value, b: &Value) -> (r: bool)
    ensures
        r == deep_eq(a@, b@),
    decreases *a,
{
    match (a, b) {
        (Value::Null, Value::Null) => true,
        (Value::Bool(x), Value::Bool(y)) => *x == *y,
        (Value::Number(x), Value::Number(y)) => *x == *y,
        (Value::String(x), Value::String(y)) => x.eq(y),
        (Value::Array(x), Value::Array(y)) => {
            if x.len() != y.len() {
                return false;
            }
            let n: usize = x.len();
            let mut i: usize = 0;
            while i < n
                invariant
                    a@ == ValueView::Arr(arr_elems_view(x@)),
                    b@ == ValueView::Arr(arr_elems_view(y@)),
                    n == x@.len(),
                    y@.len() == n,
                    0 <= i <= n,
                    forall|j: int|
                        0 <= j < i ==> deep_eq(
                            #[trigger] arr_elems_view(x@)[j],
                            arr_elems_view(y@)[j],
                        ),
                decreases n - i,
            {
                if !values_deep_equal(&x[i], &y[i]) {
                    assert(!deep_eq(arr_elems_view(x@)[i as int], arr_elems_view(y@)[i as int]));
                    return false;
                }
                i = i + 1;
            }
            true
        },
        (Value::Object(x), Value::Object(y)) => {
            if x.len() != y.len() {
                return false;
            }
            let n: usize = x.len();
            let mut i: usize = 0;
            while i < n
                invariant
                    a@ == ValueView::Obj(obj_entries_view(x@)),
                    b@ == ValueView::Obj(obj_entries_view(y@)),
                    n == x@.len(),
                    y@.len() == n,
                    0 <= i <= n,
                    forall|j: int|
                        0 <= j < i ==> match obj_get(
                            obj_entries_view(y@),
                            (#[trigger] obj_entries_view(x@)[j]).0,
                        ) {
                            Some(bv) => deep_eq(obj_entries_view(x@)[j].1, bv),
                            None => false,
                        },
                decreases n - i,
            {
                assert(obj_entries_view(x@)[i as int] == (x@[i as int].0@, x@[i as int].1@));
                match Value::entry(y, &x[i].0) {
                    Some(bv) => {
                        if !values_deep_equal(&x[i].1, bv) {
                            return false;
                        }
                    },
                    None => {
                        return false;
                    },
                }
                i = i + 1;
            }
            true
        },
        _ => {
            assert(!deep_eq(a@, b@));
            false
        },
    }
}

} // verus!
