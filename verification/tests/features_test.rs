use rs_czsc::features::utils::{take_n, unique};

#[test]
fn take_n_takes_a_prefix() {
    assert_eq!(take_n(&[1, 2, 3], 2), vec![1, 2]);
    assert_eq!(take_n(&[1, 2, 3], 5), vec![1, 2, 3]);
    assert_eq!(take_n::<i64>(&[], 1), Vec::<i64>::new());
}

#[test]
fn unique_keeps_first_occurrences() {
    assert_eq!(unique(&[3, 1, 3, 2, 1]), vec![3, 1, 2]);
    assert_eq!(unique(&[]), Vec::<i64>::new());
}
