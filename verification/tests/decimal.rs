use void_orchestrator::decimal::{fd_to_string, unsigned_to_string};

#[test]
fn small_numbers_are_single_digits() {
    assert_eq!(fd_to_string(0), "0");
    assert_eq!(fd_to_string(3), "3");
    assert_eq!(fd_to_string(9), "9");
}

#[test]
fn larger_numbers_have_no_leading_zero() {
    assert_eq!(fd_to_string(10), "10");
    assert_eq!(fd_to_string(1024), "1024");
    assert_eq!(fd_to_string(i32::MAX), "2147483647");
    assert_eq!(unsigned_to_string(u32::MAX), "4294967295");
}

#[test]
fn negative_numbers_carry_a_sign() {
    assert_eq!(fd_to_string(-1), "-1");
    assert_eq!(fd_to_string(i32::MIN), "-2147483648");
}

#[test]
fn numerals_agree_with_the_standard_library() {
    for n in [0, 1, 7, 12, 99, 100, 101, 65535, 1_000_000] {
        assert_eq!(fd_to_string(n), n.to_string());
        assert_eq!(fd_to_string(-n), (-n).to_string());
    }
}
