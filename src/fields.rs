//! Decoders for the scalar fields of a sensor message.
//!
//! The lenient decoders take a value either in its native JSON form or as a
//! string that writes it; the exact ones take the native form alone.
use vstd::prelude::*;
use crate::json::{JsonValue, member, get_member};
use crate::number::{Decimal, decimal_of, read_decimal, digit_run, digits_onto, is_digit};

verus! {

/// A reading given as a number or as a string that writes one.
pub open spec fn lenient_reading(v: JsonValue) -> Option<Decimal> {
    match v {
        JsonValue::Number(t) => decimal_of(t@),
        JsonValue::Str(t) => decimal_of(t@),
        _ => None,
    }
}

/// A reading given as a number.
pub open spec fn exact_reading(v: JsonValue) -> Option<Decimal> {
    match v {
        JsonValue::Number(t) => decimal_of(t@),
        _ => None,
    }
}

/// The count that `t` writes: decimal digits alone, at least one, whose
/// value fits `u64`.
pub open spec fn count_of_text(t: Seq<char>) -> Option<u64> {
    if t.len() > 0 && digit_run(t, 0) == t.len() && digits_onto(0, t) <= u64::MAX {
        Some(digits_onto(0, t) as u64)
    } else {
        None
    }
}

/// A count given as a number.
pub open spec fn exact_count(v: JsonValue) -> Option<u64> {
    match v {
        JsonValue::Number(t) => count_of_text(t@),
        _ => None,
    }
}

/// A count given as a number or as a string that writes one.
pub open spec fn lenient_count(v: JsonValue) -> Option<u64> {
    match v {
        JsonValue::Number(t) => count_of_text(t@),
        JsonValue::Str(t) => count_of_text(t@),
        _ => None,
    }
}

/// A text given as a string.
pub open spec fn exact_text(v: JsonValue) -> Option<String> {
    match v {
        JsonValue::Str(s) => Some(s),
        _ => None,
    }
}

/// A flag given as a boolean.
pub open spec fn exact_flag(v: JsonValue) -> Option<bool> {
    match v {
        JsonValue::Bool(b) => Some(b),
        _ => None,
    }
}

/// What serde-aux's `deserialize_bool_from_anything` makes of the number
/// written `text` (`quoted` false) or of the string `text` (`quoted` true).
pub uninterp spec fn flag_from_anything(text: Seq<char>, quoted: bool) -> Option<bool>;

/// A flag given as a boolean, or as a number or string that serde-aux reads
/// as one.
pub open spec fn lenient_flag(v: JsonValue) -> Option<bool> {
    match v {
        JsonValue::Bool(b) => Some(b),
        JsonValue::Number(t) => flag_from_anything(t@, false),
        JsonValue::Str(t) => flag_from_anything(t@, true),
        _ => None,
    }
}

/// The member `key` of `v` read as a lenient reading.
pub open spec fn lenient_reading_field(v: JsonValue, key: Seq<char>) -> Option<Decimal> {
    match member(v, key) {
        Some(x) => lenient_reading(x),
        None => None,
    }
}

/// The member `key` of `v` read as an exact reading.
pub open spec fn exact_reading_field(v: JsonValue, key: Seq<char>) -> Option<Decimal> {
    match member(v, key) {
        Some(x) => exact_reading(x),
        None => None,
    }
}

/// The member `key` of `v` read as a count.
pub open spec fn count_field(v: JsonValue, key: Seq<char>) -> Option<u64> {
    match member(v, key) {
        Some(x) => exact_count(x),
        None => None,
    }
}

/// The member `key` of `v` read as a lenient count.
pub open spec fn lenient_count_field(v: JsonValue, key: Seq<char>) -> Option<u64> {
    match member(v, key) {
        Some(x) => lenient_count(x),
        None => None,
    }
}

/// The member `key` of `v` read as a text.
pub open spec fn text_field(v: JsonValue, key: Seq<char>) -> Option<String> {
    match member(v, key) {
        Some(x) => exact_text(x),
        None => None,
    }
}

/// The member `key` of `v` read as an exact flag.
pub open spec fn exact_flag_field(v: JsonValue, key: Seq<char>) -> Option<bool> {
    match member(v, key) {
        Some(x) => exact_flag(x),
        None => None,
    }
}

/// The member `key` of `v` read as a lenient flag.
pub open spec fn lenient_flag_field(v: JsonValue, key: Seq<char>) -> Option<bool> {
    match member(v, key) {
        Some(x) => lenient_flag(x),
        None => None,
    }
}

/// Relies on serde_aux::field_attributes::deserialize_bool_from_anything on
/// the number written `text`, or on the string `text`. A string that is `true`
/// or `false` gives that flag (it is lower-cased and parsed as a `bool` first).
#[verifier::external_body]
fn bool_from_anything(text: &str, quoted: bool) -> (r: Option<bool>)
    ensures
        r == flag_from_anything(text@, quoted),
        quoted && text@ == "true"@ ==> r == Some(true),
        quoted && text@ == "false"@ ==> r == Some(false),
{
    let value = if quoted {
        Ok(serde_json::Value::String(text.to_owned()))
    } else {
        serde_json::from_str::<serde_json::Value>(text)
    };
    value.ok().and_then(|v| serde_aux::field_attributes::deserialize_bool_from_anything(v).ok())
}

/// Decodes a lenient reading (see `lenient_reading`).
pub fn decode_lenient_reading(v: &JsonValue) -> (r: Option<Decimal>)
    ensures
        r == lenient_reading(*v),
{
    match v {
        JsonValue::Number(t) => read_decimal(t.as_str()),
        JsonValue::Str(t) => read_decimal(t.as_str()),
        _ => None,
    }
}

/// Decodes a lenient flag (see `lenient_flag`).
pub fn decode_lenient_flag(v: &JsonValue) -> (r: Option<bool>)
    ensures
        r == lenient_flag(*v),
{
    match v {
        JsonValue::Bool(b) => Some(*b),
        JsonValue::Number(t) => bool_from_anything(t.as_str(), false),
        JsonValue::Str(t) => bool_from_anything(t.as_str(), true),
        _ => None,
    }
}

/// Reads the count that `s` writes (see `count_of_text`).
pub fn read_count(s: &str) -> (r: Option<u64>)
    ensures
        r == count_of_text(s@),
{
            let n = s.unicode_len();
            if n == 0 {
                return None;
            }
            let mut i: usize = 0;
            while i < n && '0' <= s.get_char(i) && s.get_char(i) <= '9'
                invariant
                    n == s@.len(),
                    i <= n,
                    digit_run(s@, 0) == i + digit_run(s@, i as int),
                    forall|k: int| 0 <= k < i ==> is_digit(#[trigger] s@[k]),
                decreases n - i,
            {
                i = i + 1;
            }
            if i != n {
                return None;
            }
            let mut m: u64 = 0;
            let mut j: usize = 0;
            assert(s@.subrange(0, 0) =~= Seq::<char>::empty());
            while j < n
                invariant
                    n == s@.len(),
                    j <= n,
                    forall|k: int| 0 <= k < n ==> is_digit(#[trigger] s@[k]),
                    n > 0,
                    digit_run(s@, 0) == n,
                    m == digits_onto(0, s@.subrange(0, j as int)),
                decreases n - j,
            {
                let c = s.get_char(j);
                let d = (c as u32 - '0' as u32) as u64;
                assert(s@.subrange(0, j + 1).drop_last() =~= s@.subrange(0, j as int));
                assert(s@.subrange(0, j + 1).last() == c);
                let grown = match m.checked_mul(10) {
                    Some(x) => x.checked_add(d),
                    None => None,
                };
                if grown.is_none() {
                    proof {
                        crate::number::lemma_onto_grows(0, s@, j + 1);
                        assert(s@.subrange(0, n as int) =~= s@);
                    }
                    return None;
                }
                m = grown.unwrap();
                j = j + 1;
            }
            assert(s@.subrange(0, n as int) =~= s@);
            Some(m)
}

/// Reads the member `key` of `v` (see `lenient_reading_field`).
pub fn read_lenient_reading_field(v: &JsonValue, key: &str) -> (r: Option<Decimal>)
    ensures
        r == lenient_reading_field(*v, key@),
{
    match get_member(v, key) {
        Some(x) => decode_lenient_reading(x),
        None => None,
    }
}

/// Reads the member `key` of `v` (see `exact_reading_field`).
pub fn read_exact_reading_field(v: &JsonValue, key: &str) -> (r: Option<Decimal>)
    ensures
        r == exact_reading_field(*v, key@),
{
    match get_member(v, key) {
        Some(JsonValue::Number(t)) => read_decimal(t.as_str()),
        _ => None,
    }
}

/// Reads the member `key` of `v` (see `count_field`).
pub fn read_count_field(v: &JsonValue, key: &str) -> (r: Option<u64>)
    ensures
        r == count_field(*v, key@),
{
    match get_member(v, key) {
        Some(JsonValue::Number(t)) => read_count(t.as_str()),
        _ => None,
    }
}

/// Reads the member `key` of `v` (see `lenient_count_field`).
pub fn read_lenient_count_field(v: &JsonValue, key: &str) -> (r: Option<u64>)
    ensures
        r == lenient_count_field(*v, key@),
{
    match get_member(v, key) {
        Some(JsonValue::Number(t)) => read_count(t.as_str()),
        Some(JsonValue::Str(t)) => read_count(t.as_str()),
        _ => None,
    }
}

/// Reads the member `key` of `v` (see `text_field`).
pub fn read_text_field(v: &JsonValue, key: &str) -> (r: Option<String>)
    ensures
        r == text_field(*v, key@),
{
    match get_member(v, key) {
        Some(JsonValue::Str(s)) => Some(s.clone()),
        _ => None,
    }
}

/// Reads the member `key` of `v` (see `exact_flag_field`).
pub fn read_exact_flag_field(v: &JsonValue, key: &str) -> (r: Option<bool>)
    ensures
        r == exact_flag_field(*v, key@),
{
    match get_member(v, key) {
        Some(JsonValue::Bool(b)) => Some(*b),
        _ => None,
    }
}

/// Reads the member `key` of `v` (see `lenient_flag_field`).
pub fn read_lenient_flag_field(v: &JsonValue, key: &str) -> (r: Option<bool>)
    ensures
        r == lenient_flag_field(*v, key@),
{
    match get_member(v, key) {
        Some(x) => decode_lenient_flag(x),
        None => None,
    }
}

} // verus!
