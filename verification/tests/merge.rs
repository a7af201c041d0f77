use duke::merge::merge_preserve_order;

fn merged(a: &[u32], b: &[u32]) -> Vec<u32> {
    merge_preserve_order(a, b).into_iter().copied().collect()
}

#[test]
fn merge_keeps_the_first_side_then_adds_the_rest() {
    assert_eq!(merged(&[1, 2, 3], &[2, 4, 1, 5]), vec![1, 2, 3, 4, 5]);
    assert_eq!(merged(&[1, 2], &[1, 2]), vec![1, 2]);
    assert_eq!(merged(&[], &[7, 8]), vec![7, 8]);
    assert_eq!(merged(&[7, 8], &[]), vec![7, 8]);
    assert_eq!(merged(&[], &[]), Vec::<u32>::new());
}

#[test]
fn merge_with_scrambled_order() {
    // the second side's order differs: the first side wins
    assert_eq!(merged(&[3, 1, 2], &[1, 2, 3, 9]), vec![3, 1, 2, 9]);
    // items of the second side that the first lacks come before what both have
    assert_eq!(merged(&[1], &[2, 2, 1]), vec![2, 2, 1]);
}

#[test]
fn merge_keeps_both_orders() {
    assert_eq!(merged(&[1, 3], &[2, 3]), vec![1, 2, 3]);
    assert_eq!(merged(&[1, 2, 4], &[1, 3, 4, 5]), vec![1, 2, 3, 4, 5]);
    assert_eq!(merged(&[5, 6], &[4, 5]), vec![4, 5, 6]);
}
