//! The in-memory model of one inbound broker message: its payload bytes,
//! its optional header table, and the tag through which it is acknowledged.

use vstd::prelude::*;

verus! {

/// A typed header value, as carried in a delivery's header table.
///
/// Floating-point values and unrecognized tags are stored already rendered
/// as text (their canonical textual form), since this crate keeps only plain
/// values; every other variant is stored as the value itself.
pub enum HeaderValue {
    /// A long string: raw bytes, not necessarily valid UTF-8.
    LongString(Vec<u8>),
    /// A short string: always valid text.
    ShortString(String),
    Boolean(bool),
    /// A 32-bit signed integer.
    LongInt(i32),
    /// A 64-bit signed integer.
    LongLongInt(i64),
    /// A single-precision float, carried as its canonical textual form.
    FloatText(String),
    /// A double-precision float, carried as its canonical textual form.
    DoubleText(String),
    /// A timestamp: seconds since the epoch.
    Timestamp(u64),
    /// Any other tag, carried as its generic debug rendering.
    Fallback(String),
}

/// One inbound message: payload, optional headers, and the acknowledgment
/// tag that identifies it on its channel.
pub struct Delivery {
    pub payload: Vec<u8>,
    pub headers: Option<Vec<(String, HeaderValue)>>,
    pub delivery_tag: u64,
}

} // verus!
