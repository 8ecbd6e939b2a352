use momento_proxy::backend::{LengthFetch, ListFetch, ValueFetch};
use momento_proxy::error::{FetchError, ProxyError};
use momento_proxy::handlers::{
    get, get_validate, hlen, lindex, lindex_fetch_bounds, lpush, lrange, lrange_fetch_bounds,
    rpush, srem,
};
use momento_proxy::request::{HashLength, ListIndex, ListPush, ListPushBack, ListRange, SetRem};

#[test]
fn get_hit_is_bulk_reply() {
    let mut buf: Vec<u8> = Vec::new();
    let key = b"foo".to_vec();
    assert!(get_validate(&key, &mut buf).is_ok());
    assert!(buf.is_empty());
    let r = get(Ok(ValueFetch::Hit(b"bar".to_vec())), &mut buf);
    assert!(r.is_ok());
    assert_eq!(buf, b"$3\r\nbar\r\n".to_vec());
}

#[test]
fn get_miss_is_nil_reply() {
    let mut buf: Vec<u8> = Vec::new();
    let key = b"missing".to_vec();
    assert!(get_validate(&key, &mut buf).is_ok());
    let r = get(Ok(ValueFetch::Miss), &mut buf);
    assert!(r.is_ok());
    assert_eq!(buf, b"$-1\r\n".to_vec());
}

#[test]
fn get_empty_value_hit() {
    let mut buf: Vec<u8> = Vec::new();
    let r = get(Ok(ValueFetch::Hit(Vec::new())), &mut buf);
    assert!(r.is_ok());
    assert_eq!(buf, b"$0\r\n\r\n".to_vec());
}

#[test]
fn get_invalid_key_is_rejected_before_any_call() {
    let mut buf: Vec<u8> = Vec::new();
    let key = vec![b'f', 0xff, b'o'];
    let r = get_validate(&key, &mut buf);
    assert!(matches!(r, Err(ProxyError::InvalidInput)));
    assert_eq!(buf, b"-ERR invalid key\r\n".to_vec());
}

#[test]
fn get_backend_error_status_writes_error_reply() {
    let mut buf: Vec<u8> = Vec::new();
    let r = get(Ok(ValueFetch::Error), &mut buf);
    assert!(r.is_ok());
    assert_eq!(buf, b"-ERR backend error\r\n".to_vec());
}

#[test]
fn get_timeout_writes_error_reply_and_reports_success() {
    let mut buf: Vec<u8> = Vec::new();
    let r = get(Err(FetchError::TimedOut), &mut buf);
    assert!(r.is_ok());
    assert_eq!(buf, b"-ERR backend timeout\r\n".to_vec());
}

#[test]
fn get_rate_limited_writes_error_reply() {
    let mut buf: Vec<u8> = Vec::new();
    let r = get(Err(FetchError::Throttled), &mut buf);
    assert!(r.is_ok());
    assert_eq!(buf, b"-ERR ratelimit exceed\r\n".to_vec());
}

#[test]
fn connection_stays_usable_after_timeout() {
    // a timed-out command answers with an error reply; the next command on
    // the same connection still gets its own well-formed reply
    let mut buf: Vec<u8> = Vec::new();
    let r = get(Err(FetchError::TimedOut), &mut buf);
    assert!(r.is_ok());
    let sent = buf.clone();
    assert_eq!(sent, b"-ERR backend timeout\r\n".to_vec());
    let mut buf2: Vec<u8> = Vec::new();
    let r2 = get(Ok(ValueFetch::Hit(b"bar".to_vec())), &mut buf2);
    assert!(r2.is_ok());
    assert_eq!(buf2, b"$3\r\nbar\r\n".to_vec());
}

#[test]
fn hlen_hit_is_integer_reply() {
    let mut buf: Vec<u8> = Vec::new();
    let req = HashLength { key: b"h".to_vec() };
    let r = hlen(&req, Ok(LengthFetch::Hit(42)), &mut buf);
    assert!(r.is_ok());
    assert_eq!(buf, b":42\r\n".to_vec());
}

#[test]
fn hlen_miss_is_zero() {
    let mut buf: Vec<u8> = Vec::new();
    let req = HashLength { key: b"h".to_vec() };
    let r = hlen(&req, Ok(LengthFetch::Miss), &mut buf);
    assert!(r.is_ok());
    assert_eq!(buf, b":0\r\n".to_vec());
}

#[test]
fn hlen_error_is_classified_and_writes_nothing() {
    let mut buf: Vec<u8> = Vec::new();
    let req = HashLength { key: b"h".to_vec() };
    let r = hlen(&req, Err(FetchError::Throttled), &mut buf);
    assert!(matches!(r, Err(ProxyError::RateLimited)));
    assert!(buf.is_empty());
}

#[test]
fn lindex_fetch_is_bounded_to_index_and_next() {
    let req = ListIndex { key: b"l".to_vec(), index: 5 };
    assert_eq!(lindex_fetch_bounds(&req), (Some(5), Some(6)));
}

#[test]
fn lindex_bound_saturates_at_the_top() {
    let req = ListIndex { key: b"l".to_vec(), index: i64::MAX };
    assert_eq!(lindex_fetch_bounds(&req), (None, None));
    let req = ListIndex { key: b"l".to_vec(), index: i32::MAX as i64 };
    assert_eq!(lindex_fetch_bounds(&req), (Some(i32::MAX), None));
}

#[test]
fn lindex_single_element_hit_is_bulk_reply() {
    let mut buf: Vec<u8> = Vec::new();
    let r = lindex(Ok(ListFetch::Hit(vec![b"elem".to_vec()])), &mut buf);
    assert!(r.is_ok());
    assert_eq!(buf, b"$4\r\nelem\r\n".to_vec());
}

#[test]
fn lindex_wrong_cardinality_is_custom_error() {
    let mut buf: Vec<u8> = Vec::new();
    let r = lindex(
        Ok(ListFetch::Hit(vec![b"a".to_vec(), b"b".to_vec()])),
        &mut buf,
    );
    match r {
        Err(ProxyError::Custom(d)) => {
            assert_eq!(d, b"Unexpected response from server".to_vec())
        }
        _ => panic!("expected a custom error"),
    }
    assert!(buf.is_empty());
    let mut buf2: Vec<u8> = Vec::new();
    let r2 = lindex(Ok(ListFetch::Hit(Vec::new())), &mut buf2);
    assert!(matches!(r2, Err(ProxyError::Custom(_))));
}

#[test]
fn lindex_miss_is_nil_reply() {
    let mut buf: Vec<u8> = Vec::new();
    let r = lindex(Ok(ListFetch::Miss), &mut buf);
    assert!(r.is_ok());
    assert_eq!(buf, b"$-1\r\n".to_vec());
}

#[test]
fn lrange_fetch_end_is_exclusive() {
    let req = ListRange { key: b"l".to_vec(), start: 0, stop: 1 };
    assert_eq!(lrange_fetch_bounds(&req), (Some(0), Some(2)));
    let req = ListRange { key: b"l".to_vec(), start: 3, stop: i64::MAX };
    assert_eq!(lrange_fetch_bounds(&req), (Some(3), None));
}

#[test]
fn lrange_hit_is_array_of_bulk_replies_in_fetch_order() {
    let mut buf: Vec<u8> = Vec::new();
    let r = lrange(
        Ok(ListFetch::Hit(vec![b"a".to_vec(), b"bb".to_vec()])),
        &mut buf,
    );
    assert!(r.is_ok());
    assert_eq!(buf, b"*2\r\n$1\r\na\r\n$2\r\nbb\r\n".to_vec());
}

#[test]
fn lrange_miss_is_empty_array() {
    let mut buf: Vec<u8> = Vec::new();
    let r = lrange(Ok(ListFetch::Miss), &mut buf);
    assert!(r.is_ok());
    assert_eq!(buf, b"*0\r\n".to_vec());
}

#[test]
fn lrange_timeout_is_classified() {
    let mut buf: Vec<u8> = Vec::new();
    let r = lrange(Err(FetchError::TimedOut), &mut buf);
    assert!(matches!(r, Err(ProxyError::Timeout)));
    assert!(buf.is_empty());
}

#[test]
fn lpush_reports_submitted_count_whatever_the_backend_said() {
    let mut buf: Vec<u8> = Vec::new();
    let req = ListPush {
        key: b"l".to_vec(),
        elements: vec![b"a".to_vec(), b"b".to_vec(), b"c".to_vec()],
    };
    // the backend reports a different list length; the reply still carries
    // the submitted count
    let r = lpush(&req, Ok(Some(999)), &mut buf);
    assert!(r.is_ok());
    assert_eq!(buf, b":3\r\n".to_vec());
}

#[test]
fn rpush_reports_submitted_count_with_no_backend_count() {
    let mut buf: Vec<u8> = Vec::new();
    let req = ListPushBack { key: b"l".to_vec(), elements: vec![b"x".to_vec()] };
    let r = rpush(&req, Ok(None), &mut buf);
    assert!(r.is_ok());
    assert_eq!(buf, b":1\r\n".to_vec());
}

#[test]
fn srem_reports_requested_count() {
    let mut buf: Vec<u8> = Vec::new();
    let req = SetRem {
        key: b"s".to_vec(),
        members: vec![b"a".to_vec(), b"b".to_vec()],
    };
    let r = srem(&req, Ok(Some(0)), &mut buf);
    assert!(r.is_ok());
    assert_eq!(buf, b":2\r\n".to_vec());
}

#[test]
fn push_failure_is_classified_and_writes_nothing() {
    let mut buf: Vec<u8> = Vec::new();
    let req = ListPush { key: b"l".to_vec(), elements: vec![b"a".to_vec()] };
    let r = lpush(&req, Err(FetchError::Failed(b"boom".to_vec())), &mut buf);
    match r {
        Err(ProxyError::BackendError(d)) => assert_eq!(d, b"boom".to_vec()),
        _ => panic!("expected a backend error"),
    }
    assert!(buf.is_empty());
}

#[test]
fn bulk_reply_is_length_prefixed_raw_bytes() {
    // a value containing the line terminator is carried verbatim; the
    // length prefix, not the terminator, delimits it
    let mut buf: Vec<u8> = Vec::new();
    let r = get(Ok(ValueFetch::Hit(b"a\r\nb".to_vec())), &mut buf);
    assert!(r.is_ok());
    assert_eq!(buf, b"$4\r\na\r\nb\r\n".to_vec());
}

#[test]
fn push_count_uses_the_full_decimal_width() {
    let mut buf: Vec<u8> = Vec::new();
    let mut elements = Vec::new();
    for i in 0..12 {
        elements.push(vec![i as u8]);
    }
    let req = ListPush { key: b"l".to_vec(), elements };
    let r = lpush(&req, Ok(None), &mut buf);
    assert!(r.is_ok());
    assert_eq!(buf, b":12\r\n".to_vec());
}
