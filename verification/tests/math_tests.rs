use mathstore::math::{calculate, MathOutcome};

#[test]
fn addition_simple() {
    let r = calculate(10, 3, &String::from("addition"));
    assert_eq!(r, MathOutcome::Value(13));
}

#[test]
fn division_truncates() {
    let r = calculate(10, 3, &String::from("division"));
    assert_eq!(r, MathOutcome::Value(3));
}

#[test]
fn division_by_zero_faults() {
    let r = calculate(5, 0, &String::from("division"));
    assert_eq!(r, MathOutcome::Fault);
}

#[test]
fn subtraction_exact() {
    assert_eq!(calculate(10, 3, &String::from("subtraction")), MathOutcome::Value(7));
    assert_eq!(calculate(7, 7, &String::from("subtraction")), MathOutcome::Value(0));
    assert_eq!(
        calculate(u64::MAX, 0, &String::from("subtraction")),
        MathOutcome::Value(u64::MAX)
    );
}

#[test]
fn subtraction_underflow_faults() {
    assert_eq!(calculate(3, 10, &String::from("subtraction")), MathOutcome::Fault);
    assert_eq!(calculate(0, 1, &String::from("subtraction")), MathOutcome::Fault);
}

#[test]
fn addition_overflow_faults() {
    assert_eq!(calculate(u64::MAX, 1, &String::from("addition")), MathOutcome::Fault);
    assert_eq!(
        calculate(u64::MAX, 0, &String::from("addition")),
        MathOutcome::Value(u64::MAX)
    );
}

#[test]
fn multiplication_exact() {
    assert_eq!(calculate(6, 7, &String::from("multiplication")), MathOutcome::Value(42));
    assert_eq!(calculate(0, u64::MAX, &String::from("multiplication")), MathOutcome::Value(0));
}

#[test]
fn multiplication_overflow_faults() {
    assert_eq!(
        calculate(u64::MAX, 2, &String::from("multiplication")),
        MathOutcome::Fault
    );
    assert_eq!(
        calculate(1 << 32, 1 << 32, &String::from("multiplication")),
        MathOutcome::Fault
    );
}

#[test]
fn unknown_operation_returns_sentinel() {
    assert_eq!(
        calculate(10, 3, &String::from("modulus")),
        MathOutcome::Value(u64::MAX)
    );
    assert_eq!(calculate(0, 0, &String::from("")), MathOutcome::Value(u64::MAX));
    assert_eq!(
        calculate(123, 456, &String::from("ADDITION")),
        MathOutcome::Value(u64::MAX)
    );
}

#[test]
fn matching_is_exact_no_normalization() {
    assert_eq!(
        calculate(1, 1, &String::from("addition ")),
        MathOutcome::Value(u64::MAX)
    );
    assert_eq!(
        calculate(1, 1, &String::from("Division")),
        MathOutcome::Value(u64::MAX)
    );
}
