//! End-to-end checks of the cleanup pipelines on concrete raw streams.

use braille_cleanup::TypeformPrefs;
use braille_cleanup::cleanup_braille;
use braille_cleanup::NavHighlight;
use braille_cleanup::cmu::cmu_cleanup;
use braille_cleanup::highlight::BrailleCode;
use braille_cleanup::highlight::highlight_braille_chars;
use braille_cleanup::nemeth::nemeth_cleanup;
use braille_cleanup::ueb::ueb_cleanup;
use braille_cleanup::vietnam::vietnam_cleanup;

fn prefs() -> TypeformPrefs {
    TypeformPrefs {
        double_struck: String::from("⠈⠨"),
        sans_serif: String::from("⠈⠼"),
        fraktur: String::from("⠈⠆"),
        greek_variant: String::from("⠨⠈"),
    }
}

#[test]
fn nemeth_numeric_indicator_empty_prefs() {
    // A number followed by a capital letter: exactly one number
    // indicator before the digit, a capital dot-6 before the letter,
    // and no spaces.
    let out = nemeth_cleanup("NLNCL⠁");
    assert_eq!(out, "⠼⠠⠁");
    assert_eq!(out.chars().filter(|&c| c == '⠼').count(), 1);
    assert!(out.contains('⠠'));
    assert!(!out.contains('⠀'));
}

#[test]
fn nemeth_english_letter_indicator() {
    // A single letter between spaces gets the English-letter indicator.
    assert_eq!(nemeth_cleanup("WL⠃W"), "⠰⠃");
}

#[test]
fn nemeth_collapses_spaces() {
    assert_eq!(nemeth_cleanup("⠁WW⠃"), "⠁⠀⠃");
}

#[test]
#[allow(non_snake_case)]
fn test_UEB_start_mode() {
    // A superscript expression: grade-2 symbol mode keeps the grade-1
    // marker as a cell; forced grade-1 passage mode drops it.
    let p = prefs();
    assert_eq!(ueb_cleanup(&p, false, "L⠭1⠔L⠝"), "⠭⠰⠔⠝");
    assert_eq!(ueb_cleanup(&p, true, "L⠭1⠔L⠝"), "⠭⠔⠝");
}

#[test]
fn ueb_highlight_24() {
    // Navigating the digit of a product extends the highlight backward
    // over the number indicator; navigating the letter extends it over
    // the grade-1 indicator.
    let p = prefs();
    let digit = cleanup_braille(
        BrailleCode::Ueb,
        &p,
        false,
        "N⣙L⠁L⠉",
        NavHighlight::All,
    );
    assert_eq!(digit, "⣼⣙⠰⠁⠉");
    let letter = cleanup_braille(
        BrailleCode::Ueb,
        &p,
        false,
        "N⠙L⣁L⠉",
        NavHighlight::All,
    );
    assert_eq!(letter, "⠼⠙⣰⣁⠉");
}

#[test]
fn ueb_standing_alone_letter() {
    // A solitary letter between spaces is owed a grade-1 indicator.
    let p = prefs();
    assert_eq!(ueb_cleanup(&p, false, "WL⠭W"), "⠀⠰⠭⠀");
}

#[test]
fn ueb_standing_alone_exempt_a() {
    // The letters a, i and o are exempt: no grade-1 indicator.
    let p = prefs();
    assert_eq!(ueb_cleanup(&p, false, "WL⠁W"), "⠀⠁⠀");
}

#[test]
fn ueb_contraction_and() {
    // The letter-run a-n-d contracts to the single cell in grade 2.
    let p = prefs();
    assert_eq!(ueb_cleanup(&p, false, "L⠁L⠝L⠙"), "⠯");
}

#[test]
fn ueb_handle_contractions_run() {
    let run = vec!['L', '⠁', 'L', '⠝', 'L', '⠙'];
    let out = braille_cleanup::ueb::handle_contractions(&run);
    assert_eq!(out, vec!['L', '⠯']);
}

#[test]
fn ueb_shortform_list() {
    assert!(braille_cleanup::ueb::is_short_form(&vec!['L', '⠁', 'L', '⠃']));
    assert!(!braille_cleanup::ueb::is_short_form(&vec!['L', '⠁', 'L', '⠝']));
}

#[test]
fn cmu_number_continuation() {
    // The number-continuation marker keeps one number indicator across
    // the decimal separator, which maps to the dot-3 cell.
    assert_eq!(cmu_cleanup("N⠂N⠆.𝑁N⠒N⠲N⠢"), "⠼⠂⠆⠄⠒⠲⠢");
}

#[test]
fn vietnam_capital_greek() {
    let p = prefs();
    assert_eq!(vietnam_cleanup(&p, "CGL⠁"), "⠸⠁");
}

#[test]
fn unknown_code_passthrough() {
    let p = prefs();
    assert_eq!(
        cleanup_braille(BrailleCode::Other, &p, false, "⠁⠃⠉", NavHighlight::Off),
        "⠁⠃⠉"
    );
}

#[test]
fn highlight_without_navigation_is_identity() {
    assert_eq!(
        highlight_braille_chars("⠼⠙⠰⠁⠉", BrailleCode::Ueb, true),
        "⠼⠙⠰⠁⠉"
    );
}

#[test]
fn nemeth_highlight_capital_prefix() {
    // The capital indicator before a highlighted letter joins the
    // highlighted region.
    assert_eq!(
        highlight_braille_chars("⠠⣁⣃", BrailleCode::Nemeth, true),
        "⣠⣁⣃"
    );
}

#[test]
fn ueb_segment_independence() {
    // A hard break separates expressions: each side is rendered on its
    // own and the results are joined with one space.
    let p = prefs();
    let joint = ueb_cleanup(&p, false, "L⠭𝐖L⠽");
    let left = ueb_cleanup(&p, false, "L⠭");
    let right = ueb_cleanup(&p, false, "L⠽");
    assert_eq!(joint, format!("{}⠀{}", left, right));
}

#[test]
fn ueb_highlight_endpoints_only() {
    // Without the fill style the interior is left alone; the start
    // still moves over the number indicator.
    assert_eq!(
        highlight_braille_chars("⠼⣙⠁⣃", BrailleCode::Ueb, false),
        "⣼⠙⠁⣃"
    );
}

#[test]
fn nemeth_cleanup_pure_braille_is_normalization() {
    assert_eq!(nemeth_cleanup("⠀⠀⠁⠀⠀⠃⠀"), "⠁⠀⠃");
}

#[test]
fn ueb_cleanup_pure_braille_is_collapsing() {
    let p = prefs();
    assert_eq!(ueb_cleanup(&p, false, "⠁⠀⠀⠃"), "⠁⠀⠃");
}
