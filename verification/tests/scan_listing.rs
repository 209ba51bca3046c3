use badge::scan::{auto_connect, display_name, find_badges, list_devices, rank_by_signal, signal_key_of};

#[test]
fn strongest_first_missing_last_ties_in_scan_order() {
    let rssi = [Some(-70), None, Some(-40), Some(-70), Some(-90), None];
    assert_eq!(rank_by_signal(&rssi), vec![2, 0, 3, 4, 1, 5]);
}

#[test]
fn empty_and_single() {
    assert_eq!(rank_by_signal(&[]), Vec::<usize>::new());
    assert_eq!(rank_by_signal(&[None]), vec![0]);
}

#[test]
fn missing_strength_sorts_like_the_minimum() {
    assert_eq!(signal_key_of(None), i16::MIN);
    assert_eq!(rank_by_signal(&[None, Some(i16::MIN)]), vec![0, 1]);
}

#[test]
fn names() {
    assert_eq!(display_name(None), "(unnamed)");
    assert_eq!(display_name(Some("nameyourbadge".to_string())), "nameyourbadge");
}

#[test]
fn device_list() {
    let names = [Some("a".to_string()), None, Some("badge".to_string())];
    let rssi = [Some(-80), Some(-30), None];
    let list = list_devices(&names, &rssi);
    assert_eq!(list.len(), 3);
    assert_eq!((list[0].index, list[0].name.as_str(), list[0].rssi), (1, "(unnamed)", Some(-30)));
    assert_eq!((list[1].index, list[1].name.as_str(), list[1].rssi), (0, "a", Some(-80)));
    assert_eq!((list[2].index, list[2].name.as_str(), list[2].rssi), (2, "badge", None));
    assert!(list_devices(&[], &[]).is_empty());
}

#[test]
fn connects_alone_only_to_a_single_device() {
    assert!(!auto_connect(0));
    assert!(auto_connect(1));
    assert!(!auto_connect(2));
}

#[test]
fn only_badges_are_found_in_scan_order() {
    let names = [
        Some("nameyourbadge".to_string()),
        None,
        Some("headphones".to_string()),
        Some("nameyourbadge".to_string()),
        Some("nameyourbadge2".to_string()),
    ];
    let rssi = [Some(-90), Some(-10), Some(-20), None, Some(-30)];
    let found = find_badges(&names, &rssi);
    assert_eq!(found.len(), 2);
    assert_eq!((found[0].index, found[0].name.as_str(), found[0].rssi), (0, "nameyourbadge", Some(-90)));
    assert_eq!((found[1].index, found[1].name.as_str(), found[1].rssi), (3, "nameyourbadge", None));
    assert!(find_badges(&[None], &[Some(-1)]).is_empty());
}
