use key_launcher::keys::label_to_symbol;
use key_launcher::keys::normalize_label;
use key_launcher::keys::KeySymbol;
use key_launcher::text::str_eq;

#[test]
fn equal_strings() {
    assert!(str_eq("", ""));
    assert!(str_eq("b", "b"));
    assert!(str_eq("escape", "escape"));
    assert!(str_eq("grüße", "grüße"));
}

#[test]
fn unequal_strings() {
    assert!(!str_eq("", "b"));
    assert!(!str_eq("b", ""));
    assert!(!str_eq("b", "B"));
    assert!(!str_eq("esc", "escape"));
    assert!(!str_eq("escape", "esc"));
    assert!(!str_eq("super", "shift"));
    assert!(!str_eq("e", "é"));
    assert!(!str_eq("é", "è"));
}

#[test]
fn case_is_folded_as_unicode_has_it() {
    // The Kelvin sign is an uppercase letter whose lowercase form is `k`.
    assert_eq!(label_to_symbol("\u{212A}"), Some(KeySymbol::KeyK));
    assert_eq!(normalize_label("\u{212A}"), "k");
    assert_eq!(normalize_label("ÄB"), "äb");
    assert_eq!(normalize_label("SPACE"), "space");
}
