//! Typed outcomes of backend calls, as the runtime hands them to the
//! handlers after racing each call against the fixed per-call deadline.
//! A failed race or a failed call arrives as a `FetchError` instead.

use vstd::prelude::*;

verus! {

/// The fixed per-call latency budget, in milliseconds. The runtime races
/// every backend call against a timer of this length; if the timer wins, the
/// in-flight call is abandoned and the outcome is a timeout.
pub const DEADLINE_MILLIS: u64 = 200;

/// The outcome of a scalar value fetch. The scalar protocol reports errors
/// in-band as a third status, beside hit and miss.
pub enum ValueFetch {
    Hit(Vec<u8>),
    Miss,
    Error,
}

/// The outcome of a dictionary length fetch.
pub enum LengthFetch {
    Hit(u64),
    Miss,
}

/// The outcome of a bounded list fetch: the elements of the fetched range in
/// list order, or a miss when the list does not exist.
pub enum ListFetch {
    Hit(Vec<Vec<u8>>),
    Miss,
}

/// The outcome of a set fetch: the members of the set in arbitrary order, or
/// a miss when the set does not exist.
pub enum SetFetch {
    Hit(Vec<Vec<u8>>),
    Miss,
}

/// The set a set fetch produced: the members of a hit, the empty set for a
/// miss. A miss is treated as an empty set, never as an error.
pub open spec fn fetched_set(f: SetFetch) -> Set<Seq<u8>> {
    match f {
        SetFetch::Hit(values) => crate::resp::views(values@).to_set(),
        SetFetch::Miss => Set::<Seq<u8>>::empty(),
    }
}

} // verus!
