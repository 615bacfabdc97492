use lindera_store::text::{decimal, joined};

#[test]
fn decimal_of_small_numbers() {
    assert_eq!(decimal(0), "0");
    assert_eq!(decimal(7), "7");
    assert_eq!(decimal(10), "10");
    assert_eq!(decimal(-1), "-1");
    assert_eq!(decimal(1_000_000), "1000000");
    assert_eq!(decimal(9_876_543_210), "9876543210");
}

#[test]
fn decimal_of_the_extremes() {
    assert_eq!(decimal(i128::MAX), "170141183460469231731687303715884105727");
    assert_eq!(decimal(i128::MIN), "-170141183460469231731687303715884105728");
    assert_eq!(decimal(u64::MAX as i128), "18446744073709551615");
    assert_eq!(decimal(i64::MIN as i128), "-9223372036854775808");
}

#[test]
fn decimal_is_what_the_formatter_prints() {
    let samples: Vec<i128> = vec![-10, -9, 9, 11, 99, 100, 101, 255, -256, 4_294_967_295];
    for n in samples {
        assert_eq!(decimal(n), format!("{}", n));
    }
}

#[test]
fn joined_keeps_both_strings() {
    assert_eq!(joined("mkdir ", "/a"), "mkdir /a");
    assert_eq!(joined("", "b"), "b");
    assert_eq!(joined("語", ""), "語");
}
