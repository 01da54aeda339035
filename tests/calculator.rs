use aspirin::calculator::do_operation;

#[test]
fn test_bitwise_and() {
    assert_eq!(do_operation(2, 27, '&'), 2);
    assert_eq!(do_operation(2, 3, '&'), 2);
    assert_eq!(do_operation(10, 5, '&'), 0);
}

#[test]
fn test_bitwise_or() {
    assert_eq!(do_operation(2, 27, '|'), 27);
    assert_eq!(do_operation(2, 3, '|'), 3);
    assert_eq!(do_operation(10, 5, '|'), 15);
}

#[test]
fn test_bitwise_xor() {
    assert_eq!(do_operation(2, 27, '^'), 25);
    assert_eq!(do_operation(2, 3, '^'), 1);
    assert_eq!(do_operation(10, 5, '^'), 15);
}

#[test]
fn bitwise_on_negative_numbers() {
    assert_eq!(do_operation(-1, 12, '&'), 12);
    assert_eq!(do_operation(-8, 3, '|'), -5);
    assert_eq!(do_operation(-1, 0, '^'), -1);
}
