use serial_bridge::wire::to_array;

#[test]
fn parses_two_bytes() {
    assert_eq!(to_array(b"[10,20]"), Some(vec![10, 20]));
}

#[test]
fn parses_single_byte() {
    assert_eq!(to_array(b"[5]"), Some(vec![5]));
    assert_eq!(to_array(b"[0]"), Some(vec![0]));
    assert_eq!(to_array(b"[255]"), Some(vec![255]));
}

#[test]
fn parses_longer_list() {
    assert_eq!(to_array(b"[1,2,3,4,5]"), Some(vec![1, 2, 3, 4, 5]));
    assert_eq!(to_array(b"[4,0,33,217,106]"), Some(vec![4, 0, 33, 217, 106]));
}

#[test]
fn leading_zeros_are_accepted() {
    assert_eq!(to_array(b"[010,007]"), Some(vec![10, 7]));
}

#[test]
fn out_of_range_byte_is_rejected() {
    assert_eq!(to_array(b"[256]"), None);
    assert_eq!(to_array(b"[1000]"), None);
    assert_eq!(to_array(b"[1,999999999999999999999]"), None);
}

#[test]
fn malformed_payloads_are_rejected() {
    assert_eq!(to_array(b""), None);
    assert_eq!(to_array(b"[]"), None);
    assert_eq!(to_array(b"[,]"), None);
    assert_eq!(to_array(b"[1,]"), None);
    assert_eq!(to_array(b"[,1]"), None);
    assert_eq!(to_array(b"[1,,2]"), None);
    assert_eq!(to_array(b"10,20"), None);
    assert_eq!(to_array(b"[10,20"), None);
    assert_eq!(to_array(b"10,20]"), None);
    assert_eq!(to_array(b"[a]"), None);
    assert_eq!(to_array(b"[ 1]"), None);
    assert_eq!(to_array(b"[1, 2]"), None);
    assert_eq!(to_array(b"[-1]"), None);
}
