//! The error taxonomy of the proxy, the total classification rules that map
//! backend failures into it, and the protocol error replies each error
//! produces.

use vstd::prelude::*;

use crate::resp::{error_line, write_error_line};

verus! {

/// A classified command failure. Every failure a handler can meet is one of
/// these; no error escalates beyond the command it arose in.
pub enum ProxyError {
    /// The request was malformed (a key with invalid text bytes), rejected
    /// before any backend call.
    InvalidInput,
    /// A backend call exceeded the fixed per-call deadline.
    Timeout,
    /// The backend explicitly signalled throttling.
    RateLimited,
    /// Any other backend-reported failure, with the backend-provided detail.
    BackendError(Vec<u8>),
    /// An internal protocol-invariant violation, with a detail message.
    Custom(Vec<u8>),
}

/// A failed backend call, as the runtime reports it after racing the call
/// against the per-call deadline: the deadline won, the backend signalled
/// throttling, or the backend reported some other failure.
pub enum FetchError {
    TimedOut,
    Throttled,
    Failed(Vec<u8>),
}

/// The classification rule of backend failures: deadline overruns become
/// `Timeout`, explicit throttling becomes `RateLimited`, and everything else
/// becomes `BackendError` carrying the backend detail.
pub open spec fn classified(e: FetchError) -> ProxyError {
    match e {
        FetchError::TimedOut => ProxyError::Timeout,
        FetchError::Throttled => ProxyError::RateLimited,
        FetchError::Failed(d) => ProxyError::BackendError(d),
    }
}

/// Classifies a failed backend call into the error taxonomy.
pub fn classify(e: FetchError) -> (r: ProxyError)
    ensures
        r == classified(e),
{
    match e {
        FetchError::TimedOut => ProxyError::Timeout,
        FetchError::Throttled => ProxyError::RateLimited,
        FetchError::Failed(d) => ProxyError::BackendError(d),
    }
}

/// The message carried by the protocol error reply for each error.
pub open spec fn error_message(e: ProxyError) -> Seq<u8> {
    match e {
        ProxyError::InvalidInput => msg_invalid_key(),
        ProxyError::Timeout => msg_backend_timeout(),
        ProxyError::RateLimited => msg_ratelimit(),
        ProxyError::BackendError(_) => msg_backend_error(),
        ProxyError::Custom(d) => d@,
    }
}

/// Appends the well-formed protocol error reply for `e`, so that a failed
/// command still answers the client and the connection stays usable.
pub fn write_error_reply(buf: &mut Vec<u8>, e: &ProxyError)
    ensures
        final(buf)@ == old(buf)@ + error_line(error_message(*e)),
{
    match e {
        ProxyError::InvalidInput => {
            let m = msg_invalid_key_bytes();
            write_error_line(buf, &m);
        }
        ProxyError::Timeout => {
            let m = msg_backend_timeout_bytes();
            write_error_line(buf, &m);
        }
        ProxyError::RateLimited => {
            let m = msg_ratelimit_bytes();
            write_error_line(buf, &m);
        }
        ProxyError::BackendError(_) => {
            let m = msg_backend_error_bytes();
            write_error_line(buf, &m);
        }
        ProxyError::Custom(d) => {
            write_error_line(buf, d);
        }
    }
}

/// The message bytes of "invalid key".
pub open spec fn msg_invalid_key() -> Seq<u8> {
    seq![105u8, 110u8, 118u8, 97u8, 108u8, 105u8, 100u8, 32u8, 107u8, 101u8, 121u8]
}

/// Builds the message bytes of "invalid key".
pub fn msg_invalid_key_bytes() -> (r: Vec<u8>)
    ensures
        r@ == msg_invalid_key(),
{
    let mut m: Vec<u8> = Vec::new();
    m.push(105u8);
    m.push(110u8);
    m.push(118u8);
    m.push(97u8);
    m.push(108u8);
    m.push(105u8);
    m.push(100u8);
    m.push(32u8);
    m.push(107u8);
    m.push(101u8);
    m.push(121u8);
    assert(m@ =~= msg_invalid_key());
    m
}

/// The message bytes of "backend error".
pub open spec fn msg_backend_error() -> Seq<u8> {
    seq![98u8, 97u8, 99u8, 107u8, 101u8, 110u8, 100u8, 32u8, 101u8, 114u8, 114u8, 111u8, 114u8]
}

/// Builds the message bytes of "backend error".
pub fn msg_backend_error_bytes() -> (r: Vec<u8>)
    ensures
        r@ == msg_backend_error(),
{
    let mut m: Vec<u8> = Vec::new();
    m.push(98u8);
    m.push(97u8);
    m.push(99u8);
    m.push(107u8);
    m.push(101u8);
    m.push(110u8);
    m.push(100u8);
    m.push(32u8);
    m.push(101u8);
    m.push(114u8);
    m.push(114u8);
    m.push(111u8);
    m.push(114u8);
    assert(m@ =~= msg_backend_error());
    m
}

/// The message bytes of "backend timeout".
pub open spec fn msg_backend_timeout() -> Seq<u8> {
    seq![98u8, 97u8, 99u8, 107u8, 101u8, 110u8, 100u8, 32u8, 116u8, 105u8, 109u8, 101u8, 111u8, 117u8, 116u8]
}

/// Builds the message bytes of "backend timeout".
pub fn msg_backend_timeout_bytes() -> (r: Vec<u8>)
    ensures
        r@ == msg_backend_timeout(),
{
    let mut m: Vec<u8> = Vec::new();
    m.push(98u8);
    m.push(97u8);
    m.push(99u8);
    m.push(107u8);
    m.push(101u8);
    m.push(110u8);
    m.push(100u8);
    m.push(32u8);
    m.push(116u8);
    m.push(105u8);
    m.push(109u8);
    m.push(101u8);
    m.push(111u8);
    m.push(117u8);
    m.push(116u8);
    assert(m@ =~= msg_backend_timeout());
    m
}

/// The message bytes of "ratelimit exceed".
pub open spec fn msg_ratelimit() -> Seq<u8> {
    seq![114u8, 97u8, 116u8, 101u8, 108u8, 105u8, 109u8, 105u8, 116u8, 32u8, 101u8, 120u8, 99u8, 101u8, 101u8, 100u8]
}

/// Builds the message bytes of "ratelimit exceed".
pub fn msg_ratelimit_bytes() -> (r: Vec<u8>)
    ensures
        r@ == msg_ratelimit(),
{
    let mut m: Vec<u8> = Vec::new();
    m.push(114u8);
    m.push(97u8);
    m.push(116u8);
    m.push(101u8);
    m.push(108u8);
    m.push(105u8);
    m.push(109u8);
    m.push(105u8);
    m.push(116u8);
    m.push(32u8);
    m.push(101u8);
    m.push(120u8);
    m.push(99u8);
    m.push(101u8);
    m.push(101u8);
    m.push(100u8);
    assert(m@ =~= msg_ratelimit());
    m
}

/// The message bytes of "Unexpected response from server".
pub open spec fn msg_unexpected_response() -> Seq<u8> {
    seq![85u8, 110u8, 101u8, 120u8, 112u8, 101u8, 99u8, 116u8, 101u8, 100u8, 32u8, 114u8, 101u8, 115u8, 112u8, 111u8, 110u8, 115u8, 101u8, 32u8, 102u8, 114u8, 111u8, 109u8, 32u8, 115u8, 101u8, 114u8, 118u8, 101u8, 114u8]
}

/// Builds the message bytes of "Unexpected response from server".
pub fn msg_unexpected_response_bytes() -> (r: Vec<u8>)
    ensures
        r@ == msg_unexpected_response(),
{
    let mut m: Vec<u8> = Vec::new();
    m.push(85u8);
    m.push(110u8);
    m.push(101u8);
    m.push(120u8);
    m.push(112u8);
    m.push(101u8);
    m.push(99u8);
    m.push(116u8);
    m.push(101u8);
    m.push(100u8);
    m.push(32u8);
    m.push(114u8);
    m.push(101u8);
    m.push(115u8);
    m.push(112u8);
    m.push(111u8);
    m.push(110u8);
    m.push(115u8);
    m.push(101u8);
    m.push(32u8);
    m.push(102u8);
    m.push(114u8);
    m.push(111u8);
    m.push(109u8);
    m.push(32u8);
    m.push(115u8);
    m.push(101u8);
    m.push(114u8);
    m.push(118u8);
    m.push(101u8);
    m.push(114u8);
    assert(m@ =~= msg_unexpected_response());
    m
}

} // verus!
