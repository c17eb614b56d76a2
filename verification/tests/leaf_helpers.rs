//! Checks of the leaf helpers: number separators, number styles,
//! Roman numerals, mathvariant application and the Nemeth per-token
//! rewrite.

use braille_cleanup::leaf::apply_math_variant;
use braille_cleanup::leaf::cmu_number_separators;
use braille_cleanup::leaf::lower_roman_numeral;
use braille_cleanup::leaf::nemeth_leaf_markers;
use braille_cleanup::leaf::substring_chars;
use braille_cleanup::leaf::vietnam_number_style;

#[test]
fn cmu_thousands_grouping() {
    assert_eq!(cmu_number_separators("12345", false), "12.345");
    assert_eq!(cmu_number_separators("1234567", false), "1.234.567");
    assert_eq!(cmu_number_separators("123", false), "123");
}

#[test]
fn cmu_spaced_number() {
    assert_eq!(cmu_number_separators("1 234 567", false), "1.234.567");
    assert_eq!(cmu_number_separators("1 234,5", false), "1.234,5");
}

#[test]
fn cmu_inverse_function_name() {
    assert_eq!(cmu_number_separators("arcsen", true), "arc.sen");
    assert_eq!(cmu_number_separators("arcsen", false), "arcsen");
}

#[test]
fn vietnam_english_style_numbers() {
    // Comma before dot: English grouping, so the separators swap.
    assert_eq!(vietnam_number_style("1,234.5"), "1.234,5");
    // A leading zero before the dot makes it a decimal point.
    assert_eq!(vietnam_number_style("0.5"), "0,5");
    // A dot followed by exactly three digits is a thousands separator.
    assert_eq!(vietnam_number_style("1.234"), "1.234");
    // Repeated commas are thousands separators.
    assert_eq!(vietnam_number_style("1,234,567"), "1.234.567");
    assert_eq!(vietnam_number_style("12"), "12");
}

#[test]
fn roman_numeral_case() {
    assert_eq!(lower_roman_numeral("XIV"), "Xiv");
    assert_eq!(lower_roman_numeral("i"), "i");
}

#[test]
fn math_variant_flags() {
    assert_eq!(apply_math_variant("L⠁", true, false, None), "BL⠁");
    assert_eq!(apply_math_variant("L⠁", true, true, Some('𝔹')), "BI𝔹L⠁");
    // The single-symbol indicator of the source is dropped.
    assert_eq!(apply_math_variant("BsL⠁", false, false, None), "BL⠁");
}

#[test]
fn nemeth_all_caps_token() {
    assert_eq!(nemeth_leaf_markers("CL⠁CL⠃", 'R', false, false, 2), "CCL⠁L⠃");
}

#[test]
fn nemeth_enclosed_list_letters() {
    assert_eq!(nemeth_leaf_markers("L⠁", 'R', true, false, 1), "l⠁");
}

#[test]
fn nemeth_typeface_pulled_out() {
    // A bold run gets one leading typeface marker.
    assert_eq!(nemeth_leaf_markers("BL⠁BL⠃", 'R', false, false, 2), "BL⠁L⠃");
}

#[test]
fn substring_by_characters() {
    assert_eq!(substring_chars("⠁⠃⠉⠙", 1, 3), "⠃⠉");
}
