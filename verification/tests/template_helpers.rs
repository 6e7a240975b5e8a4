use lanoma::helpers::handlebars::{add_int, div_int, mult_int, relpath, sub_int};

#[test]
fn add_int_sums_and_counts_other_values_as_zero() {
    assert_eq!(add_int(&vec![Some(1), Some(2), Some(3)]), 6);
    assert_eq!(add_int(&vec![Some(5), None, Some(-7)]), -2);
    assert_eq!(add_int(&vec![]), 0);
}

#[test]
fn sub_int_subtracts_the_rest_from_the_first() {
    assert_eq!(sub_int(&vec![Some(10), Some(3), Some(2)]), 5);
    assert_eq!(sub_int(&vec![Some(4)]), 4);
    assert_eq!(sub_int(&vec![None, Some(4)]), -4);
    assert_eq!(sub_int(&vec![]), 0);
}

#[test]
fn div_int_divides_toward_zero() {
    assert_eq!(div_int(&vec![Some(100), Some(5), Some(2)]), 10);
    assert_eq!(div_int(&vec![Some(-7), Some(2)]), -3);
    assert_eq!(div_int(&vec![Some(7), Some(-2)]), -3);
    assert_eq!(div_int(&vec![Some(9), None]), 9);
    assert_eq!(div_int(&vec![]), 1);
}

#[test]
fn mult_int_starts_from_zero() {
    assert_eq!(mult_int(&vec![Some(2), Some(3)]), 0);
    assert_eq!(mult_int(&vec![]), 0);
}

#[test]
fn relpath_writes_the_relative_path() {
    assert_eq!(relpath(Some("a/b/c"), Some("a")), "b/c");
    assert_eq!(relpath(Some("a"), Some("a/b")), "..");
    assert_eq!(relpath(Some("a"), Some("/b")), "");
    assert_eq!(relpath(None, None), "");
    assert_eq!(relpath(Some("x"), None), "x");
}
