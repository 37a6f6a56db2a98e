//! Self-describing records, the unit of data that pipelines carry.
use vstd::prelude::*;

verus! {

/// A structured record: the values a record stream can hold.
#[derive(Debug, PartialEq)]
pub enum Record {
    /// The absent value.
    Null,
    /// A boolean.
    Bool(bool),
    /// A signed integer; the wire format holds integers in -2^64 .. 2^64 - 1.
    Integer(i128),
    /// A double-precision floating-point number, held as its IEEE 754 bit pattern.
    Float(u64),
    /// A byte string.
    Bytes(Vec<u8>),
    /// A text string.
    Text(String),
    /// A list of records.
    Array(Vec<Record>),
    /// Key-value entries, in insertion order.
    Dict(Vec<(Record, Record)>),
    /// A numeric tag and the record it marks.
    Tag(u64, Box<Record>),
}

} // verus!
