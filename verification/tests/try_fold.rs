use blueprint_core::ArithOp;
use blueprint_core::ArithStep;
use blueprint_core::DecimalMapper;
use blueprint_core::TryFold;
use blueprint_core::ValidationError;

fn succeed_with(op: ArithOp) -> TryFold<ArithStep> {
    TryFold::new(ArithStep { op, fails: false })
}

fn fail_with(op: ArithOp) -> TryFold<ArithStep> {
    TryFold::new(ArithStep { op, fails: true })
}

#[test]
fn test_and() {
    let t1 = succeed_with(ArithOp::Sum);
    let t2 = succeed_with(ArithOp::Product);
    let t = t1.and(t2);

    let actual = t.try_fold(&2, &3).to_result().unwrap();
    let expected = 10;

    assert_eq!(actual, expected)
}

#[test]
fn test_combine_ok() {
    let t1 = succeed_with(ArithOp::Sum);
    let t2 = succeed_with(ArithOp::Product);
    let t = t1.and(t2);

    let actual = t.try_fold(&2, &3).to_result().unwrap();
    let expected = 10;

    assert_eq!(actual, expected)
}

#[test]
fn test_one_failure() {
    let t1 = fail_with(ArithOp::Sum);
    let t2 = succeed_with(ArithOp::Product);
    let t = t1.and(t2);

    let actual = t.try_fold(&2, &3).to_result().unwrap_err();
    let expected = ValidationError::new(5);

    assert_eq!(actual, expected)
}

#[test]
fn test_both_failure() {
    let t1 = fail_with(ArithOp::Sum);
    let t2 = fail_with(ArithOp::Product);
    let t = t1.and(t2);

    let actual = t.try_fold(&2, &3).to_result().unwrap_err();
    let expected = ValidationError::new(5).combine(ValidationError::new(6));

    assert_eq!(actual, expected)
}

#[test]
fn test_1_3_failure_left() {
    let t1 = fail_with(ArithOp::Sum); // 2 + 3
    let t2 = succeed_with(ArithOp::Product); // 2 * 3
    let t3 = fail_with(ArithOp::ProductScaled); // 2 * state * 100
    let t = t1.and(t2).and(t3);

    let actual = t.try_fold(&2, &3).to_result().unwrap_err();
    let expected = ValidationError::new(5).combine(ValidationError::new(600));

    assert_eq!(actual, expected)
}

#[test]
fn test_1_3_failure_right() {
    let t1 = fail_with(ArithOp::Sum); // 2 + 3
    let t2 = succeed_with(ArithOp::Product); // 2 * 3
    let t3 = fail_with(ArithOp::ProductScaled); // 2 * 6
    let t = t1.and(t2.and(t3));

    let actual = t.try_fold(&2, &3).to_result().unwrap_err();
    let expected = ValidationError::new(5).combine(ValidationError::new(1200));

    assert_eq!(actual, expected)
}

#[test]
fn test_2_3_failure() {
    let t1 = succeed_with(ArithOp::Sum);
    let t2 = fail_with(ArithOp::Product);
    let t3 = fail_with(ArithOp::ProductScaled);
    let t = t1.and(t2.and(t3));

    let actual = t.try_fold(&2, &3).to_result().unwrap_err();
    let expected = ValidationError::new(10).combine(ValidationError::new(1000));

    assert_eq!(actual, expected)
}

#[test]
fn test_try_all() {
    let t1 = succeed_with(ArithOp::Sum);
    let t2 = fail_with(ArithOp::Product);
    let t3 = fail_with(ArithOp::ProductScaled);
    let t = TryFold::from_iter(vec![t1, t2, t3]);

    let actual = t.try_fold(&2, &3).to_result().unwrap_err();
    let expected = ValidationError::new(10).combine(ValidationError::new(1000));

    assert_eq!(actual, expected)
}

#[test]
fn test_try_all_1_3_fail() {
    let t1 = fail_with(ArithOp::Sum);
    let t2 = succeed_with(ArithOp::Product);
    let t3 = fail_with(ArithOp::ProductScaled);
    let t = TryFold::from_iter(vec![t1, t2, t3]);

    let actual = t.try_fold(&2, &3).to_result().unwrap_err();
    let expected = ValidationError::new(5).combine(ValidationError::new(1200));

    assert_eq!(actual, expected)
}

#[test]
fn test_transform() {
    let t = succeed_with(ArithOp::Sum).transform(DecimalMapper {});

    let actual = t.try_fold(&2, &"3".to_string()).to_result().unwrap();
    let expected = "5".to_string();

    assert_eq!(actual, expected)
}

#[test]
fn test_from_iter_empty() {
    let t: TryFold<ArithStep> = TryFold::from_iter(vec![]);
    assert_eq!(t.try_fold(&2, &3).to_result().unwrap(), 3);
}

#[test]
fn test_transform_rejects_bad_state() {
    let t = succeed_with(ArithOp::Sum).transform(DecimalMapper {});
    assert!(t.try_fold(&2, &"x3".to_string()).to_result().is_err());
}

#[test]
fn test_transform_negative_value() {
    let t = succeed_with(ArithOp::Sum).transform(DecimalMapper {});
    assert_eq!(t.try_fold(&-5, &"3".to_string()).to_result().unwrap(), "-2".to_string());
}
