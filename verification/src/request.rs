//! Typed requests, one struct per command, each carrying the fields the
//! translation needs as plain values. The frontend parses client bytes into
//! these before a handler runs; a request is immutable for the duration of
//! one command.

use vstd::prelude::*;

verus! {

/// A dictionary length request.
pub struct HashLength {
    pub key: Vec<u8>,
}

/// A single-index list lookup request.
pub struct ListIndex {
    pub key: Vec<u8>,
    pub index: i64,
}

/// A list range request with an inclusive end.
pub struct ListRange {
    pub key: Vec<u8>,
    pub start: i64,
    pub stop: i64,
}

/// A push-to-front request carrying the elements to prepend.
pub struct ListPush {
    pub key: Vec<u8>,
    pub elements: Vec<Vec<u8>>,
}

/// A push-to-back request carrying the elements to append.
pub struct ListPushBack {
    pub key: Vec<u8>,
    pub elements: Vec<Vec<u8>>,
}

/// A set element removal request carrying the members to remove.
pub struct SetRem {
    pub key: Vec<u8>,
    pub members: Vec<Vec<u8>>,
}

/// A set difference request; the first key addresses the base set.
pub struct SetDiff {
    pub keys: Vec<Vec<u8>>,
}

/// A set intersection request.
pub struct SetIntersect {
    pub keys: Vec<Vec<u8>>,
}

/// A set union request.
pub struct SetUnion {
    pub keys: Vec<Vec<u8>>,
}

} // verus!
