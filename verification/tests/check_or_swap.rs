use ductaper::llm_work::check_or_swap::check_or_swap;

/// Tests for check_or_swap function
#[test]
pub fn test_swap() {
    assert_eq!(
        check_or_swap("a", "[b]"), //
        ("a", "[b]"),
    );
    assert_eq!(
        check_or_swap("[a]", "b"), //
        ("b", "[a]"),
    );
    assert_eq!(
        check_or_swap("asdf****", "b"), //
        ("b", "asdf****"),
    );
    assert_eq!(
        check_or_swap("b", "asdf****"), //
        ("b", "asdf****")
    );
    assert_eq!(
        check_or_swap("[PERSON]", "Joulie Yen"),
        ("Joulie Yen", "[PERSON]"),
    );
    assert_eq!(
        check_or_swap("Joulie Yen", "[PERSON]"),
        ("Joulie Yen", "[PERSON]"),
    );
    assert_eq!(
        check_or_swap("user@example.com", "user@e**********"),
        ("user@example.com", "user@e**********"),
    );
    assert_eq!(
        check_or_swap("user@e**********", "user@example.com"),
        ("user@example.com", "user@e**********"),
    );
    assert_eq!(
        check_or_swap("1234 5678 1234 5678", "1234 **** **** ****"),
        ("1234 5678 1234 5678", "1234 **** **** ****"),
    );
    assert_eq!(
        check_or_swap("1234 **** **** ****", "1234 5678 1234 5678"),
        ("1234 5678 1234 5678", "1234 **** **** ****"),
    );
}
