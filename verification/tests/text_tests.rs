use iron_fauna::text::{decimal_text, join3, same_text};

#[test]
fn texts_compare_by_characters() {
    assert!(same_text("the_cradle", "the_cradle"));
    assert!(!same_text("the_cradle", "the_crad"));
    assert!(!same_text("abc", "abd"));
    assert!(same_text("", ""));
    assert!(same_text("é", "é"));
}

#[test]
fn decimals_render_every_digit() {
    assert_eq!(decimal_text(0), "0");
    assert_eq!(decimal_text(7), "7");
    assert_eq!(decimal_text(10), "10");
    assert_eq!(decimal_text(1205), "1205");
    assert_eq!(decimal_text(u64::MAX), u64::MAX.to_string());
    assert_eq!(join3("a", "bc", ""), "abc");
}
