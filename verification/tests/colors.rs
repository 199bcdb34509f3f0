use biao::color::normalize_color;

#[test]
fn test_normalize_hash_uppercase() {
    assert_eq!(normalize_color("#FF0000").unwrap(), "ff0000");
}

#[test]
fn test_normalize_lowercase_unchanged() {
    assert_eq!(normalize_color("ff0000").unwrap(), "ff0000");
}

#[test]
fn test_normalize_uppercase() {
    assert_eq!(normalize_color("FF0000").unwrap(), "ff0000");
}

#[test]
fn test_normalize_mixed_digits() {
    assert_eq!(normalize_color("#d73A49").unwrap(), "d73a49");
}

#[test]
fn test_normalize_too_short() {
    let err = normalize_color("ff00").unwrap_err();
    assert_eq!(err.message(), "Color must be 6 hex digits (e.g., ff0000)");
}

#[test]
fn test_normalize_not_hex() {
    let err = normalize_color("zzzzzz").unwrap_err();
    assert_eq!(err.message(), "Invalid hex color format");
}

#[test]
fn test_normalize_too_long() {
    assert!(normalize_color("ff000000").is_err());
}
