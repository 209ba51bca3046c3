use badge::advertising::{advertisement_data, BR_EDR_NOT_SUPPORTED, LE_GENERAL_DISCOVERABLE};

#[test]
fn flags_then_complete_local_name() {
    let adv = advertisement_data(b"nameyourbadge");
    let mut want = vec![0x02, 0x01, 0x06, 14, 0x09];
    want.extend_from_slice(b"nameyourbadge");
    assert_eq!(adv, want);
    assert_eq!(LE_GENERAL_DISCOVERABLE | BR_EDR_NOT_SUPPORTED, 0x06);
}

#[test]
fn longest_name_that_fits() {
    let name = [b'a'; 26];
    let adv = advertisement_data(&name);
    assert_eq!(adv.len(), 31);
    assert_eq!(adv[3], 27);
}

#[test]
fn empty_name() {
    assert_eq!(advertisement_data(b""), vec![0x02, 0x01, 0x06, 1, 0x09]);
}
