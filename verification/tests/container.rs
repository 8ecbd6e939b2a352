use momento_proxy::byteset::{bytes_eq, contains_bytes, ByteSet};

#[test]
fn byte_equality_is_by_value() {
    assert!(bytes_eq(&b"abc".to_vec(), &b"abc".to_vec()));
    assert!(!bytes_eq(&b"abc".to_vec(), &b"abd".to_vec()));
    assert!(!bytes_eq(&b"abc".to_vec(), &b"ab".to_vec()));
    assert!(bytes_eq(&Vec::new(), &Vec::new()));
}

#[test]
fn membership_scan_finds_values() {
    let v = vec![b"a".to_vec(), b"b".to_vec()];
    assert!(contains_bytes(&v, &b"a".to_vec()));
    assert!(contains_bytes(&v, &b"b".to_vec()));
    assert!(!contains_bytes(&v, &b"c".to_vec()));
}

#[test]
fn a_set_keeps_one_copy_of_each_value() {
    let mut s = ByteSet::new();
    assert!(s.is_empty());
    assert_eq!(s.len(), 0);
    s.insert(b"a".to_vec());
    s.insert(b"b".to_vec());
    s.insert(b"a".to_vec());
    assert_eq!(s.len(), 2);
    assert!(!s.is_empty());
    assert!(s.contains(&b"a".to_vec()));
    assert!(s.contains(&b"b".to_vec()));
    assert!(!s.contains(&b"c".to_vec()));
    assert_eq!(s.elements().len(), 2);
}

#[test]
fn set_operations_follow_the_algebra() {
    let mut s = ByteSet::from_elements(vec![b"a".to_vec(), b"b".to_vec(), b"c".to_vec()]);
    s.remove_all(&vec![b"b".to_vec(), b"z".to_vec()]);
    assert_eq!(s.len(), 2);
    assert!(s.contains(&b"a".to_vec()));
    assert!(!s.contains(&b"b".to_vec()));
    s.insert_all(vec![b"d".to_vec(), b"a".to_vec()]);
    assert_eq!(s.len(), 3);
    s.retain_all(&vec![b"d".to_vec(), b"c".to_vec(), b"q".to_vec()]);
    assert_eq!(s.len(), 2);
    assert!(s.contains(&b"c".to_vec()));
    assert!(s.contains(&b"d".to_vec()));
    s.clear();
    assert!(s.is_empty());
}

#[test]
fn a_set_reply_lists_each_element_as_a_bulk_reply() {
    let s = ByteSet::from_elements(vec![b"only".to_vec()]);
    let mut buf: Vec<u8> = Vec::new();
    s.write_reply(&mut buf);
    assert_eq!(buf, b"*1\r\n$4\r\nonly\r\n".to_vec());
}
