//! The values that plugin settings and status maps hold.
//!
//! A value is what a JSON document can hold at the top level of a settings
//! object, as far as plugins read it: null, a truth value, a number, a text
//! or a list of texts. A number with a fractional part is kept in hundredths.

use crate::keyed::{distinct_keys, lemma_key_position, lemma_key_position_is, KeyedList};
use vstd::prelude::*;

verus! {

/// One value of a settings object or a status map.
#[derive(Debug)]
pub enum Value {
    Null,
    Bool(bool),
    /// A whole number that is not negative.
    Unsigned(u64),
    /// A whole number below zero.
    Negative(i64),
    /// A number with a fractional part, in hundredths.
    Hundredths(i64),
    Text(String),
    Texts(Vec<String>),
}

/// What a `Value` holds, with texts as sequences of characters.
pub enum ValueView {
    Null,
    Bool(bool),
    Unsigned(u64),
    Negative(i64),
    Hundredths(i64),
    Text(Seq<char>),
    Texts(Seq<Seq<char>>),
}

impl View for Value {
    type V = ValueView;

    open spec fn view(&self) -> ValueView {
        match *self {
            Value::Null => ValueView::Null,
            Value::Bool(b) => ValueView::Bool(b),
            Value::Unsigned(n) => ValueView::Unsigned(n),
            Value::Negative(n) => ValueView::Negative(n),
            Value::Hundredths(h) => ValueView::Hundredths(h),
            Value::Text(s) => ValueView::Text(s@),
            Value::Texts(v) => ValueView::Texts(Seq::new(v@.len(), |i: int| v@[i]@)),
        }
    }
}

impl Value {
    /// A value that holds the same as this one.
    pub fn duplicate(&self) -> (r: Value)
        ensures
            r@ == self@,
    {
        match self {
            Value::Null => Value::Null,
            Value::Bool(b) => Value::Bool(*b),
            Value::Unsigned(n) => Value::Unsigned(*n),
            Value::Negative(n) => Value::Negative(*n),
            Value::Hundredths(h) => Value::Hundredths(*h),
            Value::Text(s) => Value::Text(s.clone()),
            Value::Texts(v) => {
                let mut out: Vec<String> = Vec::new();
                let mut i: usize = 0;
                while i < v.len()
                    invariant
                        i <= v.len(),
                        out@.len() == i,
                        forall|k: int| 0 <= k < i ==> #[trigger] out@[k]@ == v@[k]@,
                    decreases v.len() - i,
                {
                    out.push(v[i].clone());
                    i += 1;
                }
                let r = Value::Texts(out);
                assert(r@ =~= self@) by {
                    assert(Seq::new(out@.len(), |i: int| out@[i]@) =~= Seq::new(
                        v@.len(),
                        |i: int| v@[i]@,
                    ));
                }
                r
            },
        }
    }

    /// The value that holds the given texts.
    pub fn texts(items: &Vec<String>) -> (r: Value)
        ensures
            r@ == ValueView::Texts(Seq::new(items@.len(), |i: int| items@[i]@)),
    {
        let mut out: Vec<String> = Vec::new();
        let mut i: usize = 0;
        while i < items.len()
            invariant
                i <= items.len(),
                out@.len() == i,
                forall|k: int| 0 <= k < i ==> #[trigger] out@[k]@ == items@[k]@,
            decreases items.len() - i,
        {
            out.push(items[i].clone());
            i += 1;
        }
        let r = Value::Texts(out);
        assert(Seq::new(out@.len(), |i: int| out@[i]@) =~= Seq::new(
            items@.len(),
            |i: int| items@[i]@,
        ));
        r
    }
}

/// A number in hundredths, as settings give thresholds and percentages.
#[derive(Debug, Clone, Copy, PartialEq, Eq, Structural)]
pub struct Fixed {
    pub hundredths: i64,
}

/// The hundredths of a whole number, kept within the range of `i64`.
pub open spec fn hundredths_of(n: int) -> i64 {
    if n * 100 > i64::MAX {
        i64::MAX
    } else if n * 100 < i64::MIN {
        i64::MIN
    } else {
        (n * 100) as i64
    }
}

impl Fixed {
    /// The number as a threshold in hundredths of a percent: nothing below
    /// zero and nothing above the largest `u32`.
    pub open spec fn as_threshold(self) -> u32 {
        if self.hundredths < 0 {
            0
        } else if self.hundredths > u32::MAX {
            u32::MAX
        } else {
            self.hundredths as u32
        }
    }

    /// The number as a threshold in hundredths of a percent.
    pub fn threshold(&self) -> (r: u32)
        ensures
            r == self.as_threshold(),
    {
        if self.hundredths < 0 {
            0
        } else if self.hundredths > 0xffff_ffff {
            0xffff_ffff
        } else {
            self.hundredths as u32
        }
    }
}

/// A type that a setting can be read as.
pub trait FromValue: Sized {
    /// What `v` reads as, or none where it holds a value of another kind or
    /// one that does not fit.
    spec fn read(v: Value) -> Option<Self>;

    /// Reads `v` as this type.
    fn from_value(v: &Value) -> (r: Option<Self>)
        ensures
            r == Self::read(*v),
    ;
}

impl FromValue for bool {
    open spec fn read(v: Value) -> Option<bool> {
        match v {
            Value::Bool(b) => Some(b),
            _ => None,
        }
    }

    fn from_value(v: &Value) -> (r: Option<bool>) {
        match v {
            Value::Bool(b) => Some(*b),
            _ => None,
        }
    }
}

impl FromValue for u64 {
    open spec fn read(v: Value) -> Option<u64> {
        match v {
            Value::Unsigned(n) => Some(n),
            _ => None,
        }
    }

    fn from_value(v: &Value) -> (r: Option<u64>) {
        match v {
            Value::Unsigned(n) => Some(*n),
            _ => None,
        }
    }
}

impl FromValue for u32 {
    open spec fn read(v: Value) -> Option<u32> {
        match v {
            Value::Unsigned(n) => if n <= u32::MAX {
                Some(n as u32)
            } else {
                None
            },
            _ => None,
        }
    }

    fn from_value(v: &Value) -> (r: Option<u32>) {
        match v {
            Value::Unsigned(n) => {
                if *n <= 0xffff_ffff {
                    Some(*n as u32)
                } else {
                    None
                }
            },
            _ => None,
        }
    }
}

impl FromValue for usize {
    open spec fn read(v: Value) -> Option<usize> {
        match v {
            Value::Unsigned(n) => if n <= usize::MAX {
                Some(n as usize)
            } else {
                None
            },
            _ => None,
        }
    }

    fn from_value(v: &Value) -> (r: Option<usize>) {
        match v {
            Value::Unsigned(n) => {
                if *n <= usize::MAX as u64 {
                    Some(*n as usize)
                } else {
                    None
                }
            },
            _ => None,
        }
    }
}

impl FromValue for i32 {
    open spec fn read(v: Value) -> Option<i32> {
        match v {
            Value::Unsigned(n) => if n <= i32::MAX {
                Some(n as i32)
            } else {
                None
            },
            Value::Negative(n) => if n >= i32::MIN && n <= i32::MAX {
                Some(n as i32)
            } else {
                None
            },
            _ => None,
        }
    }

    fn from_value(v: &Value) -> (r: Option<i32>) {
        match v {
            Value::Unsigned(n) => {
                if *n <= 0x7fff_ffff {
                    Some(*n as i32)
                } else {
                    None
                }
            },
            Value::Negative(n) => {
                if *n >= -0x8000_0000 && *n <= 0x7fff_ffff {
                    Some(*n as i32)
                } else {
                    None
                }
            },
            _ => None,
        }
    }
}

impl FromValue for String {
    open spec fn read(v: Value) -> Option<String> {
        match v {
            Value::Text(s) => Some(s),
            _ => None,
        }
    }

    fn from_value(v: &Value) -> (r: Option<String>) {
        match v {
            Value::Text(s) => Some(s.clone()),
            _ => None,
        }
    }
}

impl FromValue for Fixed {
    open spec fn read(v: Value) -> Option<Fixed> {
        match v {
            Value::Unsigned(n) => Some(Fixed { hundredths: hundredths_of(n as int) }),
            Value::Negative(n) => Some(Fixed { hundredths: hundredths_of(n as int) }),
            Value::Hundredths(h) => Some(Fixed { hundredths: h }),
            _ => None,
        }
    }

    fn from_value(v: &Value) -> (r: Option<Fixed>) {
        match v {
            Value::Unsigned(n) => {
                if *n <= 92233720368547758 {
                    Some(Fixed { hundredths: (*n * 100) as i64 })
                } else {
                    Some(Fixed { hundredths: i64::MAX })
                }
            },
            Value::Negative(n) => {
                if *n >= -92233720368547758 {
                    if *n <= 92233720368547758 {
                        Some(Fixed { hundredths: *n * 100 })
                    } else {
                        Some(Fixed { hundredths: i64::MAX })
                    }
                } else {
                    Some(Fixed { hundredths: i64::MIN })
                }
            },
            Value::Hundredths(h) => Some(Fixed { hundredths: *h }),
            _ => None,
        }
    }
}

/// What a list holds under `key`, as a view.
pub open spec fn view_under(list: KeyedList<Value>, key: Seq<char>) -> Option<ValueView> {
    match list.lookup(key) {
        Some(v) => Some(v@),
        None => None,
    }
}

/// Whether two lists hold the same keys in the same order with values that
/// hold the same.
pub open spec fn same_values(a: KeyedList<Value>, b: KeyedList<Value>) -> bool {
    a.keys() == b.keys() && a.values().len() == b.values().len() && forall|i: int|
        0 <= i < a.values().len() ==> (#[trigger] a.values()[i])@ == b.values()[i]@
}

/// Lists that hold the same give the same under every key.
pub proof fn lemma_same_values(a: KeyedList<Value>, b: KeyedList<Value>)
    requires
        same_values(a, b),
    ensures
        forall|k: Seq<char>| #[trigger] view_under(a, k) == view_under(b, k),
{
    assert forall|k: Seq<char>| #[trigger] view_under(a, k) == view_under(b, k) by {
        lemma_key_position(a.keys(), k);
    }
}

/// A list that holds the same as `list`.
pub fn duplicate_list(list: &KeyedList<Value>) -> (r: KeyedList<Value>)
    ensures
        same_values(r, *list),
{
    let mut r: KeyedList<Value> = KeyedList::new();
    let n = list.len();
    let mut i: usize = 0;
    assert(list.keys().take(0) =~= Seq::<Seq<char>>::empty());
    while i < n
        invariant
            i <= n,
            n == list.keys().len(),
            n == list.values().len(),
            distinct_keys(list.keys()),
            r.keys() == list.keys().take(i as int),
            r.values().len() == i,
            forall|j: int| 0 <= j < i ==> (#[trigger] r.values()[j])@ == list.values()[j]@,
        decreases n - i,
    {
        let key = list.key_at(i).clone();
        let value = list.value_at(i).duplicate();
        proof {
            assert forall|k: int| 0 <= k < i implies #[trigger] r.keys()[k] != key@ by {
                assert(r.keys()[k] == list.keys()[k]);
            }
            lemma_key_position_is(r.keys(), key@, i as int);
            assert(list.keys().take(i + 1) =~= list.keys().take(i as int).push(key@));
        }
        let ghost before = r.values();
        r.insert(key, value);
        assert forall|j: int| 0 <= j < i + 1 implies (#[trigger] r.values()[j])@
            == list.values()[j]@ by {
            if j < i {
                assert(r.values()[j] == before[j]);
            }
        }
        i += 1;
    }
    assert(list.keys().take(n as int) =~= list.keys());
    r
}

} // verus!
