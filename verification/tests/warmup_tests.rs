use deet::warmup::{add_n, add_n_inplace, dedup};

#[test]
fn test_add_n() {
    let v = vec![1, 2, 3];
    assert_eq!(add_n(v, 2), vec![3, 4, 5]);
}

#[test]
fn test_add_n_inplace() {
    let mut v = vec![1];
    add_n_inplace(&mut v, 2);
    assert_eq!(v, vec![3]);
}

#[test]
fn test_dedup() {
    let mut v = vec![3, 1, 0, 1, 4, 4];
    dedup(&mut v);
    assert_eq!(v, vec![3, 1, 0, 4]);
}

#[test]
fn dedup_empty_and_negative() {
    let mut v: Vec<i32> = vec![];
    dedup(&mut v);
    assert_eq!(v, vec![]);

    let mut v = vec![-1, -1, -1];
    dedup(&mut v);
    assert_eq!(v, vec![-1]);
}

#[test]
fn add_n_negative_shift() {
    let v = vec![10, -10, 0];
    assert_eq!(add_n(v, -5), vec![5, -15, -5]);
}
