use text_diff::dot_list::{first_index_of, push_bounded};

#[test]
fn push_below_cap_appends() {
    let mut v = vec![1, 2];
    push_bounded(&mut v, 3, 5);
    assert_eq!(v, vec![1, 2, 3]);
}

#[test]
fn push_at_cap_drops_oldest() {
    let mut v: Vec<u64> = (0..50).collect();
    push_bounded(&mut v, 99, 50);
    assert_eq!(v.len(), 50);
    assert_eq!(v[0], 1);
    assert_eq!(v[49], 99);
}

#[test]
fn push_with_zero_cap_keeps_only_new() {
    let mut v = vec![7];
    push_bounded(&mut v, 8, 0);
    assert_eq!(v, vec![8]);
}

#[test]
fn finds_first_matching_id() {
    assert_eq!(first_index_of(&vec![4, 5, 5, 6], 5), Some(1));
    assert_eq!(first_index_of(&vec![4, 5], 9), None);
    assert_eq!(first_index_of(&vec![], 0), None);
}

#[test]
fn ids_stay_increasing_through_pushes_and_removals() {
    let mut ids: Vec<u64> = Vec::new();
    for id in 0..60u64 {
        push_bounded(&mut ids, id, 50);
    }
    assert_eq!(ids.len(), 50);
    assert!(ids.windows(2).all(|w| w[0] < w[1]));
    let pos = first_index_of(&ids, 30).unwrap();
    ids.remove(pos);
    assert!(ids.windows(2).all(|w| w[0] < w[1]));
    assert_eq!(first_index_of(&ids, 30), None);
}
