use smart_home::smart::text::same_text;

#[test]
fn same_text_of_equal_slices() {
    assert!(same_text("Kitchen", "Kitchen"));
    assert!(same_text("", ""));
    let owned = String::from("Kit") + "chen";
    assert!(same_text(&owned, "Kitchen"));
}

#[test]
fn same_text_of_slices_of_different_length() {
    assert!(!same_text("Kitchen", "Kitchens"));
    assert!(!same_text("Kitchens", "Kitchen"));
    assert!(!same_text("", "a"));
    assert!(!same_text("a", ""));
}

#[test]
fn same_text_of_slices_that_differ_in_one_place() {
    assert!(!same_text("Kitchen", "kitchen"));
    assert!(!same_text("Kitchen", "Kitchem"));
    assert!(!same_text("Kitchen", "Kit hen"));
}

#[test]
fn same_text_outside_ascii() {
    assert!(same_text("Гостиная", "Гостиная"));
    assert!(!same_text("Гостиная", "Гостинаю"));
    assert!(!same_text("é", "e\u{301}"));
    assert!(same_text("日本", "日本"));
    assert!(!same_text("日本", "日木"));
}
