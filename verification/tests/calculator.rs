use github_actions_demo::calculator::{add, divide, fibonacci, multiply, subtract};

#[test]
fn test_add() {
    assert_eq!(add(2, 3), 5);
    assert_eq!(add(-1, 1), 0);
    assert_eq!(add(0, 0), 0);
}

#[test]
fn test_subtract() {
    assert_eq!(subtract(5, 3), 2);
    assert_eq!(subtract(0, 5), -5);
}

#[test]
fn test_multiply() {
    assert_eq!(multiply(3, 4), 12);
    assert_eq!(multiply(-2, 3), -6);
    assert_eq!(multiply(0, 100), 0);
}

#[test]
fn test_divide() {
    assert_eq!(divide(10, 2), Ok(5));
    assert_eq!(divide(7, 2), Ok(3));
    assert_eq!(divide(5, 0), Err("division by zero"));
}

#[test]
fn test_fibonacci() {
    assert_eq!(fibonacci(0), 0);
    assert_eq!(fibonacci(1), 1);
    assert_eq!(fibonacci(10), 55);
    assert_eq!(fibonacci(20), 6765);
}

#[test]
fn divide_rounds_toward_zero() {
    assert_eq!(divide(-7, 2), Ok(-3));
    assert_eq!(divide(7, -2), Ok(-3));
    assert_eq!(divide(-7, -2), Ok(3));
    assert_eq!(divide(i64::MIN, 2), Ok(i64::MIN / 2));
}

#[test]
fn subtract_undoes_add() {
    assert_eq!(subtract(add(40, -17), -17), 40);
}

#[test]
fn fibonacci_largest_in_range() {
    assert_eq!(fibonacci(93), 12200160415121876738);
    assert_eq!(fibonacci(2), 1);
}
