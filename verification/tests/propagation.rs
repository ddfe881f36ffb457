use pixgine::propagation::propagation_order;

#[test]
fn children_follow_their_parents() {
    assert_eq!(propagation_order(&vec![(2, 1), (3, 2)], &vec![1, 2, 3]), vec![(2, 1), (3, 2)]);
}

#[test]
fn grandchild_listed_first_waits_for_its_parent() {
    assert_eq!(propagation_order(&vec![(3, 2), (2, 1)], &vec![1, 2, 3]), vec![(2, 1), (3, 2)]);
}

#[test]
fn cycle_and_missing_parent_resolve_nothing() {
    assert_eq!(propagation_order(&vec![(1, 2), (2, 1)], &vec![1, 2]), vec![]);
    assert_eq!(propagation_order(&vec![(2, 9)], &vec![2]), vec![]);
    assert_eq!(propagation_order(&vec![(4, 9), (5, 4)], &vec![4, 5]), vec![]);
}

#[test]
fn long_chain_takes_several_passes() {
    // Each link names the next entity as parent, listed deepest first.
    let links: Vec<(u64, u64)> = (1..10u64).rev().map(|c| (c, c - 1)).collect();
    let wt: Vec<u64> = (0..10u64).collect();
    let order = propagation_order(&links, &wt);
    let expected: Vec<(u64, u64)> = (1..10u64).map(|c| (c, c - 1)).collect();
    assert_eq!(order, expected);
}
