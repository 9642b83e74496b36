use wontun::AllowedIps;

fn ip(a: u8, b: u8, c: u8, d: u8) -> u32 {
    u32::from_be_bytes([a, b, c, d])
}

#[test]
fn insert_then_get_inside_prefix() {
    let mut t = AllowedIps::new();
    assert_eq!(t.insert(ip(192, 0, 2, 77), 24, 5), None);
    assert_eq!(t.get(ip(192, 0, 2, 1)), Some(5));
    assert_eq!(t.get(ip(192, 0, 2, 255)), Some(5));
    assert_eq!(t.get(ip(192, 0, 3, 1)), None);
}

#[test]
fn longest_prefix_wins_in_either_order() {
    let mut a = AllowedIps::new();
    a.insert(ip(10, 0, 0, 0), 8, 1);
    a.insert(ip(10, 1, 0, 0), 16, 2);
    let mut b = AllowedIps::new();
    b.insert(ip(10, 1, 0, 0), 16, 2);
    b.insert(ip(10, 0, 0, 0), 8, 1);
    for t in [&a, &b] {
        assert_eq!(t.get(ip(10, 1, 2, 3)), Some(2));
        assert_eq!(t.get(ip(10, 2, 2, 3)), Some(1));
        assert_eq!(t.get(ip(11, 1, 2, 3)), None);
    }
}

#[test]
fn same_prefix_replaces_value() {
    let mut t = AllowedIps::new();
    assert_eq!(t.insert(ip(192, 0, 2, 3), 32, 1), None);
    assert_eq!(t.insert(ip(192, 0, 2, 3), 32, 9), Some(1));
    assert_eq!(t.get(ip(192, 0, 2, 3)), Some(9));
}

#[test]
fn zero_length_prefix_covers_everything() {
    let mut t = AllowedIps::new();
    t.insert(ip(1, 2, 3, 4), 0, 4);
    assert_eq!(t.get(0), Some(4));
    assert_eq!(t.get(u32::MAX), Some(4));
}

#[test]
fn remove_by_value_and_clear() {
    let mut t = AllowedIps::new();
    t.insert(ip(10, 0, 0, 0), 8, 1);
    t.insert(ip(10, 1, 0, 0), 16, 2);
    t.insert(ip(192, 0, 2, 0), 24, 2);
    t.remove(|v| v == 2);
    assert_eq!(t.get(ip(10, 1, 0, 1)), Some(1));
    assert_eq!(t.get(ip(192, 0, 2, 1)), None);
    t.clear();
    assert_eq!(t.get(ip(10, 1, 0, 1)), None);
}

#[test]
fn iter_yields_truncated_entries() {
    let mut t = AllowedIps::new();
    t.insert(ip(192, 0, 2, 77), 24, 5);
    t.insert(ip(10, 0, 0, 1), 32, 6);
    let mut it = t.iter();
    let mut seen = Vec::new();
    while let Some(e) = it.next() {
        seen.push(e);
    }
    seen.sort();
    assert_eq!(seen, vec![(5, ip(192, 0, 2, 0), 24), (6, ip(10, 0, 0, 1), 32)]);
    assert_eq!(it.next(), None);
}
