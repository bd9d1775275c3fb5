use std::collections::HashSet;

use leptos_animated_for::registry::{animates_enter, ElementRegistry};

#[test]
fn enter_is_animated_after_mount_or_with_appear() {
    assert!(!animates_enter(false, None));
    assert!(!animates_enter(false, Some(false)));
    assert!(animates_enter(false, Some(true)));
    assert!(animates_enter(true, None));
    assert!(animates_enter(true, Some(false)));
}

#[test]
fn registry_records_children() {
    let mut r: ElementRegistry<&str> = ElementRegistry::new();
    r.insert(1, "a");
    r.insert(2, "b");
    r.insert(1, "c");
    assert_eq!(r.len(), 2);
    assert_eq!(r.get(1), Some(&"c"));
    assert_eq!(r.get(3), None);
    let mut keys = r.keys();
    keys.sort();
    assert_eq!(keys, vec![1, 2]);
}

#[test]
fn split_for_render_partitions_children() {
    let mut r: ElementRegistry<&str> = ElementRegistry::new();
    for (k, v) in [(1, "a"), (2, "b"), (3, "c"), (4, "d")] {
        r.insert(k, v);
    }
    let next: HashSet<u64> = [2, 4, 5].into_iter().collect();
    let (mut staying, mut leaving) = r.split_for_render(&next);
    staying.sort();
    leaving.sort();
    assert_eq!(staying, vec![2, 4]);
    assert_eq!(leaving, vec![(1, "a"), (3, "c")]);
    assert_eq!(r.len(), 2);
    assert_eq!(r.get(1), None);
    assert_eq!(r.get(2), Some(&"b"));
    let mut keys = r.keys();
    keys.sort();
    assert_eq!(keys, vec![2, 4]);
}

#[test]
fn split_for_render_with_no_children() {
    let mut r: ElementRegistry<u8> = ElementRegistry::new();
    let next: HashSet<u64> = [1].into_iter().collect();
    let (staying, leaving) = r.split_for_render(&next);
    assert!(staying.is_empty());
    assert!(leaving.is_empty());
}

#[test]
fn split_for_render_all_leave() {
    let mut r: ElementRegistry<u8> = ElementRegistry::new();
    r.insert(9, 0);
    let (staying, leaving) = r.split_for_render(&HashSet::new());
    assert!(staying.is_empty());
    assert_eq!(leaving, vec![(9, 0)]);
    assert_eq!(r.len(), 0);
}

#[test]
fn split_for_render_stay_or_leave_never_both() {
    let mut r: ElementRegistry<u8> = ElementRegistry::new();
    for k in 1..=6u64 {
        r.insert(k, k as u8);
    }
    let next: HashSet<u64> = [1, 3, 5, 7].into_iter().collect();
    let (staying, leaving) = r.split_for_render(&next);
    let mut all: Vec<u64> = staying.clone();
    all.extend(leaving.iter().map(|(k, _)| *k));
    all.sort();
    assert_eq!(all, vec![1, 2, 3, 4, 5, 6]);
    for k in &staying {
        assert!(!leaving.iter().any(|(l, _)| l == k));
    }
}
