//! Callback event logs: scanning for an event by an attribute pair, reading
//! attributes by key, and parsing decimal amounts out of attribute values.
//!
//! A callback's outcome arrives only as string-encoded event data, so the
//! relevant figures are located by name and parsed; failing to find them is
//! a fatal protocol error, never guessed around.

use vstd::prelude::*;
use vstd::string::StrSliceExecFns;
use vstd::string::StringExecFns;

use crate::error::ZapError;

verus! {

/// One key/value pair of an event.
#[derive(Debug, PartialEq, Eq)]
pub struct Attribute {
    pub key: String,
    pub value: String,
}

impl Clone for Attribute {
    fn clone(&self) -> (r: Self)
        ensures
            r == *self,
    {
        Attribute { key: self.key.clone(), value: self.value.clone() }
    }
}

/// One event of a callback's log: its type and its attributes.
#[derive(Debug, PartialEq, Eq)]
pub struct Event {
    pub ty: String,
    pub attributes: Vec<Attribute>,
}

/// Index of the first element of `s` satisfying `p`, or `-1` if none.
pub open spec fn first_where<A>(s: Seq<A>, p: spec_fn(A) -> bool) -> int
    decreases s.len(),
{
    if s.len() == 0 {
        -1
    } else if p(s[0]) {
        0
    } else if first_where(s.drop_first(), p) == -1 {
        -1
    } else {
        first_where(s.drop_first(), p) + 1
    }
}

/// A satisfying element with none before it is exactly what `first_where`
/// points at.
pub proof fn lemma_first_where_at<A>(s: Seq<A>, p: spec_fn(A) -> bool, i: int)
    requires
        0 <= i < s.len(),
        p(s[i]),
        forall|j: int| 0 <= j < i ==> !p(#[trigger] s[j]),
    ensures
        first_where(s, p) == i,
    decreases s.len(),
{
    if i > 0 {
        assert(s.drop_first()[i - 1] == s[i]);
        assert forall|j: int| 0 <= j < i - 1 implies !p(s.drop_first()[j]) by {
            assert(s.drop_first()[j] == s[j + 1]);
        }
        lemma_first_where_at(s.drop_first(), p, i - 1);
    }
}

/// When no element satisfies `p`, `first_where` is `-1`.
pub proof fn lemma_first_where_none<A>(s: Seq<A>, p: spec_fn(A) -> bool)
    requires
        forall|j: int| 0 <= j < s.len() ==> !p(#[trigger] s[j]),
    ensures
        first_where(s, p) == -1,
    decreases s.len(),
{
    if s.len() != 0 {
        assert forall|j: int| 0 <= j < s.drop_first().len() implies !p(s.drop_first()[j]) by {
            assert(s.drop_first()[j] == s[j + 1]);
        }
        lemma_first_where_none(s.drop_first(), p);
    }
}

/// Whether the event carries an attribute with the given key and value.
pub open spec fn event_has_attr(e: Event, key: Seq<char>, value: Seq<char>) -> bool {
    exists|i: int|
        0 <= i < e.attributes@.len() && (#[trigger] e.attributes@[i]).key@ == key
            && e.attributes@[i].value@ == value
}

/// Index of the first event carrying the attribute pair, or `-1`.
pub open spec fn first_event_with(events: Seq<Event>, key: Seq<char>, value: Seq<char>) -> int {
    first_where(events, |e: Event| event_has_attr(e, key, value))
}

/// Index of the first attribute with the given key, or `-1`.
pub open spec fn first_attr_with(attrs: Seq<Attribute>, key: Seq<char>) -> int {
    first_where(attrs, |a: Attribute| a.key@ == key)
}

/// Whether the event contains the given key/value attribute pair.
pub fn event_contains_attr(event: &Event, key: &String, value: &String) -> (r: bool)
    ensures
        r == event_has_attr(*event, key@, value@),
{
    let n = event.attributes.len();
    let mut i: usize = 0;
    while i < n
        invariant
            0 <= i <= n,
            n == event.attributes@.len(),
            forall|j: int|
                0 <= j < i ==> !((#[trigger] event.attributes@[j]).key@ == key@
                    && event.attributes@[j].value@ == value@),
        decreases n - i,
    {
        let a = &event.attributes[i];
        if a.key == *key && a.value == *value {
            return true;
        }
        i += 1;
    }
    false
}

/// Find the first event carrying the attribute pair.
pub fn find_event_with_attr(events: &Vec<Event>, key: &String, value: &String) -> (r: Option<
    usize,
>)
    ensures
        match r {
            Some(i) => i as int == first_event_with(events@, key@, value@) && i < events@.len(),
            None => first_event_with(events@, key@, value@) == -1,
        },
{
    let ghost p = |e: Event| event_has_attr(e, key@, value@);
    let n = events.len();
    let mut i: usize = 0;
    while i < n
        invariant
            0 <= i <= n,
            n == events@.len(),
            p == (|e: Event| event_has_attr(e, key@, value@)),
            forall|j: int| 0 <= j < i ==> !p(#[trigger] events@[j]),
        decreases n - i,
    {
        if event_contains_attr(&events[i], key, value) {
            proof {
                lemma_first_where_at(events@, p, i as int);
            }
            return Some(i);
        }
        i += 1;
    }
    proof {
        lemma_first_where_none(events@, p);
    }
    None
}

/// Read the value of the first attribute with the given key.
pub fn find_attr_value(event: &Event, key: &String) -> (r: Option<String>)
    ensures
        match r {
            Some(v) => {
                let i = first_attr_with(event.attributes@, key@);
                &&& i >= 0
                &&& v@ == event.attributes@[i].value@
            },
            None => first_attr_with(event.attributes@, key@) == -1,
        },
{
    let ghost p = |a: Attribute| a.key@ == key@;
    let n = event.attributes.len();
    let mut i: usize = 0;
    while i < n
        invariant
            0 <= i <= n,
            n == event.attributes@.len(),
            p == (|a: Attribute| a.key@ == key@),
            forall|j: int| 0 <= j < i ==> !p(#[trigger] event.attributes@[j]),
        decreases n - i,
    {
        let a = &event.attributes[i];
        if a.key == *key {
            proof {
                lemma_first_where_at(event.attributes@, p, i as int);
            }
            return Some(a.value.clone());
        }
        i += 1;
    }
    proof {
        lemma_first_where_none(event.attributes@, p);
    }
    None
}

/// Whether `c` is a decimal digit.
pub open spec fn is_digit(c: char) -> bool {
    48 <= c as u32 <= 57
}

/// The digit's numeric value.
pub open spec fn digit_val(c: char) -> int {
    c as u32 - 48
}

/// Whether `s` is a non-empty string of decimal digits.
pub open spec fn dec_digits(s: Seq<char>) -> bool {
    s.len() > 0 && forall|i: int| 0 <= i < s.len() ==> is_digit(#[trigger] s[i])
}

/// The number the digit string denotes, most significant digit first.
pub open spec fn dec_val(s: Seq<char>) -> int
    decreases s.len(),
{
    if s.len() == 0 {
        0
    } else {
        dec_val(s.drop_last()) * 10 + digit_val(s.last())
    }
}

/// A digit string's value is non-negative.
proof fn lemma_dec_val_nonneg(s: Seq<char>)
    requires
        forall|j: int| 0 <= j < s.len() ==> is_digit(#[trigger] s[j]),
    ensures
        dec_val(s) >= 0,
    decreases s.len(),
{
    if s.len() != 0 {
        lemma_dec_val_nonneg(s.drop_last());
    }
}

/// Parse a non-empty all-digit decimal string into a 128-bit amount.
/// Anything else — empty, a stray character, or a value too wide — is
/// rejected carrying the offending text.
pub fn parse_u128(s: &str) -> (r: Result<u128, ZapError>)
    ensures
        match r {
            Ok(v) => dec_digits(s@) && v as int == dec_val(s@),
            Err(e) => {
                &&& !(dec_digits(s@) && dec_val(s@) <= u128::MAX)
                &&& e matches ZapError::InvalidAmount(t) && t@ == s@
            },
        },
{
    let n = s.unicode_len();
    if n == 0 {
        return Err(ZapError::InvalidAmount(String::from_str(s)));
    }
    let mut acc: u128 = 0;
    let mut i: usize = 0;
    while i < n
        invariant
            0 <= i <= n,
            n == s@.len(),
            forall|j: int| 0 <= j < i ==> is_digit(#[trigger] s@[j]),
            acc as int == dec_val(s@.take(i as int)),
        decreases n - i,
    {
        let c = s.get_char(i);
        let d = c as u32;
        if d < 48 || d > 57 {
            return Err(ZapError::InvalidAmount(String::from_str(s)));
        }
        proof {
            assert(s@.take(i + 1).drop_last() =~= s@.take(i as int));
            assert(s@.take(i + 1).last() == s@[i as int]);
        }
        let scaled = match acc.checked_mul(10) {
            Some(x) => x,
            None => {
                proof {
                    lemma_dec_val_overflow(s@, i as int, acc as int, (d - 48) as int);
                }
                return Err(ZapError::InvalidAmount(String::from_str(s)));
            },
        };
        acc = match scaled.checked_add((d - 48) as u128) {
            Some(x) => x,
            None => {
                proof {
                    lemma_dec_val_overflow(s@, i as int, acc as int, (d - 48) as int);
                }
                return Err(ZapError::InvalidAmount(String::from_str(s)));
            },
        };
        i += 1;
    }
    proof {
        assert(s@.take(n as int) =~= s@);
    }
    Ok(acc)
}

/// When one more digit pushes the running value past the 128-bit bound, the
/// whole string's value is past it too.
proof fn lemma_dec_val_overflow(s: Seq<char>, i: int, acc: int, d: int)
    requires
        0 <= i < s.len(),
        acc == dec_val(s.take(i)),
        d == digit_val(s[i]),
        acc * 10 + d > u128::MAX,
    ensures
        !(dec_digits(s) && dec_val(s) <= u128::MAX),
{
    if dec_digits(s) {
        assert(s.take(i + 1).drop_last() =~= s.take(i));
        assert(s.take(i + 1).last() == s[i]);
        assert(dec_val(s.take(i + 1)) == acc * 10 + d);
        assert(dec_val(s.take(i + 1)) <= dec_val(s)) by {
            lemma_dec_val_prefix_pair(s, i + 1);
        }
    }
}

/// The value of a prefix is at most the value of the whole digit string.
proof fn lemma_dec_val_prefix_pair(s: Seq<char>, i: int)
    requires
        0 <= i <= s.len(),
        forall|j: int| 0 <= j < s.len() ==> is_digit(#[trigger] s[j]),
    ensures
        dec_val(s.take(i)) <= dec_val(s),
    decreases s.len() - i,
{
    if i == s.len() {
        assert(s.take(i) =~= s);
    } else {
        lemma_dec_val_prefix_pair(s, i + 1);
        assert(s.take(i + 1).drop_last() =~= s.take(i));
        lemma_dec_val_nonneg(s.take(i));
        assert(dec_val(s.take(i + 1)) == dec_val(s.take(i)) * 10 + digit_val(s.take(i + 1).last()));
    }
}

} // verus!
