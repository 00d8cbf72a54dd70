use lyric_checker::order::sort_pairs;

#[test]
fn sort_is_nondecreasing_by_key() {
    let v: Vec<(u64, char)> = vec![(30, 'a'), (10, 'b'), (20, 'c'), (10, 'd')];
    let r = sort_pairs(v);
    let keys: Vec<u64> = r.iter().map(|p| p.0).collect();
    assert_eq!(keys, vec![10, 10, 20, 30]);
}

#[test]
fn sort_is_stable_on_equal_keys() {
    let v: Vec<(u64, char)> = vec![(3, 'a'), (1, 'b'), (3, 'c'), (2, 'd'), (3, 'e')];
    let r = sort_pairs(v);
    assert_eq!(r, vec![(1, 'b'), (2, 'd'), (3, 'a'), (3, 'c'), (3, 'e')]);
}

#[test]
fn sort_of_empty_is_empty() {
    let v: Vec<(u64, u32)> = vec![];
    let r = sort_pairs(v);
    assert!(r.is_empty());
}

#[test]
fn sort_keeps_already_ordered_input() {
    let v: Vec<(u64, u8)> = vec![(1, 9), (2, 8), (3, 7)];
    let r = sort_pairs(v.clone());
    assert_eq!(r, v);
}
