//! The command handlers: one function per protocol command, each mapping a
//! typed request and a typed backend outcome to a protocol-exact reply in
//! the response buffer, or to a classified error.
//!
//! The runtime performs the backend call itself, under the fixed per-call
//! deadline, between the functions of this module: a handler here either
//! describes the call to issue (the fetch bounds, the request fields) or
//! translates the call's outcome. The scalar-get path is the legacy style:
//! it writes error replies into the buffer itself and still reports success;
//! every other handler returns the classified error and leaves the reply to
//! the caller.

use vstd::prelude::*;

use crate::backend::{LengthFetch, ListFetch, ValueFetch};
use crate::error::{
    classified, classify, error_message, msg_backend_error, msg_backend_error_bytes,
    msg_invalid_key, msg_invalid_key_bytes, msg_unexpected_response, msg_unexpected_response_bytes,
    write_error_reply, FetchError, ProxyError,
};
use crate::request::{HashLength, ListIndex, ListPush, ListPushBack, ListRange, SetRem};
use crate::resp::{
    array_header, array_reply, bulk_reply, error_line, integer_reply, nil_reply, views, write_bulk,
    write_bulk_array, write_array_header, write_error_line, write_integer, write_nil,
};
use crate::text::{is_valid_text, is_valid_text_bytes};

verus! {

/// A list fetch bound as the backend takes it: `None` leaves that side of
/// the range unbounded.
pub open spec fn to_fetch_bound(i: i64) -> Option<i32> {
    if i32::MIN <= i && i <= i32::MAX {
        Some(i as i32)
    } else {
        None
    }
}

/// `i + 1` without overflow: the inclusive end of a requested range becomes
/// the exclusive end of the backend fetch.
pub open spec fn saturating_next(i: i64) -> i64 {
    if i == i64::MAX {
        i64::MAX
    } else {
        (i + 1) as i64
    }
}

fn to_bound(i: i64) -> (r: Option<i32>)
    ensures
        r == to_fetch_bound(i),
{
    if i >= i32::MIN as i64 && i <= i32::MAX as i64 {
        Some(i as i32)
    } else {
        None
    }
}

fn saturating_add_one(i: i64) -> (r: i64)
    ensures
        r == saturating_next(i),
{
    if i == i64::MAX {
        i64::MAX
    } else {
        i + 1
    }
}

/// Validates the key of a scalar get before any backend call. A key whose
/// bytes are not valid text is rejected: the error reply is written into the
/// buffer (the legacy path answers the client itself) and the command fails
/// with `InvalidInput`, and only then.
pub fn get_validate(key: &Vec<u8>, response_buf: &mut Vec<u8>) -> (r: Result<(), ProxyError>)
    ensures
        r is Ok <==> is_valid_text(key@),
        r is Ok ==> final(response_buf)@ == old(response_buf)@,
        !is_valid_text(key@) ==> r == Err::<(), ProxyError>(ProxyError::InvalidInput) && final(response_buf)@ == old(response_buf)@ + error_line(msg_invalid_key()),
{
    if is_valid_text_bytes(key) {
        Ok(())
    } else {
        let m = msg_invalid_key_bytes();
        write_error_line(response_buf, &m);
        Err(ProxyError::InvalidInput)
    }
}

/// The exact reply of a scalar get for each backend outcome: a bulk reply of
/// the value on a hit, the nil bulk reply on a miss, and an error reply for
/// an in-band backend error or a classified failure.
pub open spec fn get_reply(outcome: Result<ValueFetch, FetchError>) -> Seq<u8> {
    match outcome {
        Ok(ValueFetch::Hit(v)) => bulk_reply(v@),
        Ok(ValueFetch::Miss) => nil_reply(),
        Ok(ValueFetch::Error) => error_line(msg_backend_error()),
        Err(e) => error_line(error_message(classified(e))),
    }
}

/// Translates the outcome of the scalar value fetch into the reply. This is
/// the legacy style: every outcome, error included, becomes a well-formed
/// reply in the buffer and the handler reports success, so the connection
/// stays usable for the next command.
pub fn get(outcome: Result<ValueFetch, FetchError>, response_buf: &mut Vec<u8>) -> (r: Result<
    (),
    ProxyError,
>)
    ensures
        r is Ok,
        final(response_buf)@ == old(response_buf)@ + get_reply(outcome),
{
    match outcome {
        Ok(ValueFetch::Hit(v)) => {
            write_bulk(response_buf, &v);
        },
        Ok(ValueFetch::Miss) => {
            write_nil(response_buf);
        },
        Ok(ValueFetch::Error) => {
            let m = msg_backend_error_bytes();
            write_error_line(response_buf, &m);
        },
        Err(e) => {
            let pe = classify(e);
            write_error_reply(response_buf, &pe);
        },
    }
    Ok(())
}

/// Translates a dictionary length outcome: the length as an integer reply on
/// a hit, the integer reply `0` on a miss, the classified error otherwise,
/// with nothing written on an error.
pub fn hlen(_req: &HashLength, outcome: Result<LengthFetch, FetchError>, response_buf: &mut Vec<
    u8,
>) -> (r: Result<(), ProxyError>)
    ensures
        match outcome {
            Ok(LengthFetch::Hit(len)) => r is Ok && final(response_buf)@ == old(response_buf)@
                + integer_reply(len as nat),
            Ok(LengthFetch::Miss) => r is Ok && final(response_buf)@ == old(response_buf)@
                + integer_reply(0),
            Err(e) => r == Err::<(), ProxyError>(classified(e)) && final(response_buf)@ == old(response_buf)@,
        },
{
    match outcome {
        Ok(LengthFetch::Hit(len)) => {
            write_integer(response_buf, len);
            Ok(())
        },
        Ok(LengthFetch::Miss) => {
            write_integer(response_buf, 0);
            Ok(())
        },
        Err(e) => Err(classify(e)),
    }
}

/// The bounds of the list fetch a single-index lookup issues: the range
/// `[index, index + 1)`, the end computed with saturating addition.
pub fn lindex_fetch_bounds(req: &ListIndex) -> (r: (Option<i32>, Option<i32>))
    ensures
        r.0 == to_fetch_bound(req.index),
        r.1 == to_fetch_bound(saturating_next(req.index)),
{
    (to_bound(req.index), to_bound(saturating_add_one(req.index)))
}

/// Translates a single-index lookup outcome: a hit must carry exactly one
/// element, which becomes a bulk reply; any other hit cardinality is an
/// internal invariant violation and fails with `Custom`; a miss becomes the
/// nil bulk reply.
pub fn lindex(outcome: Result<ListFetch, FetchError>, response_buf: &mut Vec<u8>) -> (r: Result<
    (),
    ProxyError,
>)
    ensures
        match outcome {
            Ok(ListFetch::Hit(values)) => if values@.len() == 1 {
                r is Ok && final(response_buf)@ == old(response_buf)@ + bulk_reply(values@[0]@)
            } else {
                (r matches Err(pe) && pe matches ProxyError::Custom(d) && d@
                    == msg_unexpected_response()) && final(response_buf)@ == old(response_buf)@
            },
            Ok(ListFetch::Miss) => r is Ok && final(response_buf)@ == old(response_buf)@
                + nil_reply(),
            Err(e) => r == Err::<(), ProxyError>(classified(e)) && final(response_buf)@ == old(response_buf)@,
        },
{
    match outcome {
        Ok(ListFetch::Hit(values)) => {
            if values.len() == 1 {
                write_bulk(response_buf, &values[0]);
                Ok(())
            } else {
                Err(ProxyError::Custom(msg_unexpected_response_bytes()))
            }
        },
        Ok(ListFetch::Miss) => {
            write_nil(response_buf);
            Ok(())
        },
        Err(e) => Err(classify(e)),
    }
}

/// The bounds of the list fetch a range request issues: the requested
/// inclusive range `[start, stop]` becomes the backend range
/// `[start, stop + 1)`, the end computed with saturating addition.
pub fn lrange_fetch_bounds(req: &ListRange) -> (r: (Option<i32>, Option<i32>))
    ensures
        r.0 == to_fetch_bound(req.start),
        r.1 == to_fetch_bound(saturating_next(req.stop)),
{
    (to_bound(req.start), to_bound(saturating_add_one(req.stop)))
}

/// Translates a list range outcome: a hit becomes an array reply of the
/// fetched elements in fetch order, a miss becomes the empty array reply.
pub fn lrange(outcome: Result<ListFetch, FetchError>, response_buf: &mut Vec<u8>) -> (r: Result<
    (),
    ProxyError,
>)
    ensures
        match outcome {
            Ok(ListFetch::Hit(values)) => r is Ok && final(response_buf)@ == old(response_buf)@
                + array_reply(views(values@)),
            Ok(ListFetch::Miss) => r is Ok && final(response_buf)@ == old(response_buf)@
                + array_header(0),
            Err(e) => r == Err::<(), ProxyError>(classified(e)) && final(response_buf)@ == old(response_buf)@,
        },
{
    match outcome {
        Ok(ListFetch::Hit(values)) => {
            write_bulk_array(response_buf, &values);
            Ok(())
        },
        Ok(ListFetch::Miss) => {
            write_array_header(response_buf, 0);
            Ok(())
        },
        Err(e) => Err(classify(e)),
    }
}

/// Translates a push-to-front acknowledgement. The backend does not report
/// how many elements the list gained, so the integer reply carries the
/// number of elements submitted in the request, whatever count, if any, the
/// backend reported: a documented approximation, not an authoritative count.
pub fn lpush(req: &ListPush, outcome: Result<Option<u64>, FetchError>, response_buf: &mut Vec<
    u8,
>) -> (r: Result<(), ProxyError>)
    ensures
        outcome is Ok ==> r is Ok && final(response_buf)@ == old(response_buf)@ + integer_reply(
            req.elements@.len(),
        ),
        outcome matches Err(e) ==> r == Err::<(), ProxyError>(classified(e)) && final(response_buf)@ == old(response_buf)@,
{
    match outcome {
        Ok(_) => {
            write_integer(response_buf, req.elements.len() as u64);
            Ok(())
        },
        Err(e) => Err(classify(e)),
    }
}

/// Translates a push-to-back acknowledgement; the reply reports the
/// submitted element count, as the push-to-front handler does.
pub fn rpush(req: &ListPushBack, outcome: Result<Option<u64>, FetchError>, response_buf: &mut Vec<
    u8,
>) -> (r: Result<(), ProxyError>)
    ensures
        outcome is Ok ==> r is Ok && final(response_buf)@ == old(response_buf)@ + integer_reply(
            req.elements@.len(),
        ),
        outcome matches Err(e) ==> r == Err::<(), ProxyError>(classified(e)) && final(response_buf)@ == old(response_buf)@,
{
    match outcome {
        Ok(_) => {
            write_integer(response_buf, req.elements.len() as u64);
            Ok(())
        },
        Err(e) => Err(classify(e)),
    }
}

/// Translates a set element removal acknowledgement. The backend does not
/// report how many elements were actually removed, so the integer reply
/// carries the number of members requested for removal: a documented
/// approximation.
pub fn srem(req: &SetRem, outcome: Result<Option<u64>, FetchError>, response_buf: &mut Vec<
    u8,
>) -> (r: Result<(), ProxyError>)
    ensures
        outcome is Ok ==> r is Ok && final(response_buf)@ == old(response_buf)@ + integer_reply(
            req.members@.len(),
        ),
        outcome matches Err(e) ==> r == Err::<(), ProxyError>(classified(e)) && final(response_buf)@ == old(response_buf)@,
{
    match outcome {
        Ok(_) => {
            write_integer(response_buf, req.members.len() as u64);
            Ok(())
        },
        Err(e) => Err(classify(e)),
    }
}

} // verus!
