use momento_proxy::backend::SetFetch;
use momento_proxy::request::{SetDiff, SetIntersect, SetUnion};
use momento_proxy::setfold::{sdiff, sinter, sunion};

fn keys(n: usize) -> Vec<Vec<u8>> {
    let mut v = Vec::new();
    for i in 0..n {
        v.push(format!("k{}", i).into_bytes());
    }
    v
}

#[test]
fn sdiff_empty_base_stops_fetching_and_replies_empty_array() {
    let req = SetDiff { keys: keys(3) };
    let mut m = sdiff(&req);
    assert_eq!(m.next_key(), Some(0));
    m.absorb(SetFetch::Miss);
    // the base set is empty: no further key is fetched
    assert_eq!(m.next_key(), None);
    let mut buf: Vec<u8> = Vec::new();
    m.finish(&mut buf);
    assert_eq!(buf, b"*0\r\n".to_vec());
}

#[test]
fn sdiff_empty_hit_base_also_stops() {
    let req = SetDiff { keys: keys(2) };
    let mut m = sdiff(&req);
    assert_eq!(m.next_key(), Some(0));
    m.absorb(SetFetch::Hit(Vec::new()));
    assert_eq!(m.next_key(), None);
    let mut buf: Vec<u8> = Vec::new();
    m.finish(&mut buf);
    assert_eq!(buf, b"*0\r\n".to_vec());
}

#[test]
fn sdiff_subtracts_the_union_of_the_rest() {
    let req = SetDiff { keys: keys(3) };
    let mut m = sdiff(&req);
    assert_eq!(m.next_key(), Some(0));
    m.absorb(SetFetch::Hit(vec![b"a".to_vec(), b"b".to_vec(), b"c".to_vec()]));
    assert_eq!(m.next_key(), Some(1));
    m.absorb(SetFetch::Hit(vec![b"b".to_vec()]));
    assert_eq!(m.next_key(), Some(2));
    m.absorb(SetFetch::Hit(vec![b"c".to_vec(), b"z".to_vec()]));
    assert_eq!(m.next_key(), None);
    let mut buf: Vec<u8> = Vec::new();
    m.finish(&mut buf);
    assert_eq!(buf, b"*1\r\n$1\r\na\r\n".to_vec());
}

#[test]
fn sdiff_miss_on_a_later_key_subtracts_nothing() {
    let req = SetDiff { keys: keys(2) };
    let mut m = sdiff(&req);
    m.absorb(SetFetch::Hit(vec![b"a".to_vec()]));
    assert_eq!(m.next_key(), Some(1));
    m.absorb(SetFetch::Miss);
    assert_eq!(m.next_key(), None);
    let mut buf: Vec<u8> = Vec::new();
    m.finish(&mut buf);
    assert_eq!(buf, b"*1\r\n$1\r\na\r\n".to_vec());
}

#[test]
fn sinter_two_keys_scenario() {
    let req = SetIntersect { keys: keys(2) };
    let mut m = sinter(&req);
    assert_eq!(m.next_key(), Some(0));
    m.absorb(SetFetch::Hit(vec![b"x".to_vec(), b"y".to_vec()]));
    assert_eq!(m.next_key(), Some(1));
    m.absorb(SetFetch::Hit(vec![b"y".to_vec()]));
    assert_eq!(m.next_key(), None);
    let mut buf: Vec<u8> = Vec::new();
    m.finish(&mut buf);
    assert_eq!(buf, b"*1\r\n$1\r\ny\r\n".to_vec());
}

#[test]
fn sinter_miss_collapses_and_stops_fetching() {
    let req = SetIntersect { keys: keys(4) };
    let mut m = sinter(&req);
    m.absorb(SetFetch::Hit(vec![b"x".to_vec(), b"y".to_vec()]));
    assert_eq!(m.next_key(), Some(1));
    m.absorb(SetFetch::Miss);
    // the running result collapsed to empty: no further key is fetched
    assert_eq!(m.next_key(), None);
    let mut buf: Vec<u8> = Vec::new();
    m.finish(&mut buf);
    assert_eq!(buf, b"*0\r\n".to_vec());
}

#[test]
fn sinter_disjoint_sets_give_empty_reply() {
    let req = SetIntersect { keys: keys(2) };
    let mut m = sinter(&req);
    m.absorb(SetFetch::Hit(vec![b"x".to_vec()]));
    m.absorb(SetFetch::Hit(vec![b"y".to_vec()]));
    assert_eq!(m.next_key(), None);
    let mut buf: Vec<u8> = Vec::new();
    m.finish(&mut buf);
    assert_eq!(buf, b"*0\r\n".to_vec());
}

#[test]
fn sunion_fetches_every_key_despite_emptiness() {
    let req = SetUnion { keys: keys(3) };
    let mut m = sunion(&req);
    assert_eq!(m.next_key(), Some(0));
    m.absorb(SetFetch::Miss);
    // union goes on even though the running set is empty
    assert_eq!(m.next_key(), Some(1));
    m.absorb(SetFetch::Miss);
    assert_eq!(m.next_key(), Some(2));
    m.absorb(SetFetch::Hit(vec![b"late".to_vec()]));
    assert_eq!(m.next_key(), None);
    let mut buf: Vec<u8> = Vec::new();
    m.finish(&mut buf);
    assert_eq!(buf, b"*1\r\n$4\r\nlate\r\n".to_vec());
}

#[test]
fn sunion_lists_a_shared_element_once() {
    let req = SetUnion { keys: keys(2) };
    let mut m = sunion(&req);
    m.absorb(SetFetch::Hit(vec![b"a".to_vec(), b"b".to_vec()]));
    m.absorb(SetFetch::Hit(vec![b"b".to_vec(), b"c".to_vec()]));
    let mut buf: Vec<u8> = Vec::new();
    m.finish(&mut buf);
    // each element exactly once, in some fixed order; the exact order is
    // not part of the contract
    assert_eq!(buf.len(), b"*3\r\n$1\r\na\r\n$1\r\nb\r\n$1\r\nc\r\n".len());
    assert!(buf.starts_with(b"*3\r\n"));
    for member in [b"a", b"b", b"c"] {
        let one = [b"$1\r\n".as_slice(), member, b"\r\n"].concat();
        let count = buf
            .windows(one.len())
            .filter(|w| *w == one.as_slice())
            .count();
        assert_eq!(count, 1);
    }
}

#[test]
fn duplicate_members_in_one_fetch_count_once() {
    let req = SetUnion { keys: keys(1) };
    let mut m = sunion(&req);
    m.absorb(SetFetch::Hit(vec![b"a".to_vec(), b"a".to_vec()]));
    let mut buf: Vec<u8> = Vec::new();
    m.finish(&mut buf);
    assert_eq!(buf, b"*1\r\n$1\r\na\r\n".to_vec());
}
