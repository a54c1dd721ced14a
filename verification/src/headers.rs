//! Header-value lookup: finding a key in a delivery's header table and
//! rendering the typed value it maps to as display text.

use vstd::prelude::*;

use crate::delivery::HeaderValue;
use crate::text::dec_rep;
use crate::text::dec_rep_signed;
use crate::text::i64_to_dec;
use crate::text::str_eq;
use crate::text::u64_to_dec;

verus! {

/// The text that lossy UTF-8 decoding produces from `bytes`: it depends on
/// the bytes alone.
pub uninterp spec fn lossy_utf8(bytes: Seq<u8>) -> Seq<char>;

/// Relies on String::from_utf8_lossy: decodes the bytes as UTF-8, replacing
/// invalid sequences with the replacement character; the result depends on
/// the bytes alone, and valid UTF-8 — in particular all-ASCII input —
/// passes through unchanged.
#[verifier::external_body]
fn utf8_lossy_string(bytes: &Vec<u8>) -> (r: String)
    ensures
        r@ == lossy_utf8(bytes@),
        (forall|i: int| 0 <= i < bytes@.len() ==> bytes@[i] < 128) ==> r@ == bytes@.map_values(
            |b: u8| b as char,
        ),
{
    String::from_utf8_lossy(bytes).into_owned()
}

/// The display text of a header value: strings verbatim (long strings
/// through lossy UTF-8 decoding), booleans and integers in their canonical
/// textual form, pre-rendered variants as the text they carry.
pub open spec fn rendered(v: HeaderValue) -> Seq<char> {
    match v {
        HeaderValue::LongString(b) => lossy_utf8(b@),
        HeaderValue::ShortString(s) => s@,
        HeaderValue::Boolean(b) => if b {
            "true"@
        } else {
            "false"@
        },
        HeaderValue::LongInt(i) => dec_rep_signed(i as int),
        HeaderValue::LongLongInt(i) => dec_rep_signed(i as int),
        HeaderValue::FloatText(s) => s@,
        HeaderValue::DoubleText(s) => s@,
        HeaderValue::Timestamp(t) => dec_rep(t as nat),
        HeaderValue::Fallback(s) => s@,
    }
}

/// The rendered value of the first entry whose key matches, if any.
pub open spec fn lookup_rendered(entries: Seq<(String, HeaderValue)>, key: Seq<char>) -> Option<
    Seq<char>,
>
    decreases entries.len(),
{
    if entries.len() == 0 {
        None
    } else if entries.first().0@ == key {
        Some(rendered(entries.first().1))
    } else {
        lookup_rendered(entries.drop_first(), key)
    }
}

/// Renders one header value as display text.
pub fn render_value(v: &HeaderValue) -> (r: String)
    ensures
        r@ == rendered(*v),
{
    match v {
        HeaderValue::LongString(b) => utf8_lossy_string(b),
        HeaderValue::ShortString(s) => s.clone(),
        HeaderValue::Boolean(b) => if *b {
            String::from_str("true")
        } else {
            String::from_str("false")
        },
        HeaderValue::LongInt(i) => i64_to_dec(*i as i64),
        HeaderValue::LongLongInt(i) => i64_to_dec(*i),
        HeaderValue::FloatText(s) => s.clone(),
        HeaderValue::DoubleText(s) => s.clone(),
        HeaderValue::Timestamp(t) => u64_to_dec(*t),
        HeaderValue::Fallback(s) => s.clone(),
    }
}

/// Retrieve a header value by key from the header table, if it exists.
///
/// Absent headers and a missing key both yield `None`; a present key yields
/// the rendered text of its value.
pub fn get_header_value_if_exists(
    headers: &Option<Vec<(String, HeaderValue)>>,
    key: &str,
) -> (r: Option<String>)
    ensures
        (r is Some) <==> (headers is Some && lookup_rendered(headers.unwrap()@, key@) is Some),
        r is Some ==> r.unwrap()@ == lookup_rendered(headers.unwrap()@, key@).unwrap(),
{
    let entries = match headers {
        Option::Some(h) => h,
        Option::None => {
            return None;
        },
    };
    let n = entries.len();
    let mut i: usize = 0;
    proof {
        assert(entries@.skip(0) =~= entries@);
    }
    while i < n
        invariant
            i <= n,
            n == entries@.len(),
            *headers == Option::Some(*entries),
            lookup_rendered(entries@, key@) == lookup_rendered(
                entries@.skip(i as int),
                key@,
            ),
        decreases n - i,
    {
        let entry = &entries[i];
        proof {
            assert(entries@.skip(i as int).first() == entries@[i as int]);
        }
        if str_eq(entry.0.as_str(), key) {
            proof {
                assert(lookup_rendered(entries@.skip(i as int), key@) == Some(
                    rendered(entries@[i as int].1),
                ));
            }
            return Some(render_value(&entry.1));
        }
        proof {
            assert(entries@.skip(i as int).drop_first() =~= entries@.skip(i as int + 1));
        }
        i += 1;
    }
    proof {
        assert(entries@.skip(n as int) =~= Seq::<(String, HeaderValue)>::empty());
    }
    None
}

} // verus!
