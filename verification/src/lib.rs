//! Cleanup pipeline of a mathematics-to-braille transcription engine.
//!
//! A first-pass translator produces a "raw braille" stream: Unicode braille
//! cells interleaved with single-character control markers (typeface,
//! capital, number, letter, grade, whitespace, ...).  This crate turns such
//! a stream into pure braille for one of four mathematical braille codes
//! (Nemeth, UEB, CMU, Vietnamese) and can overlay a navigation highlight
//! (dots 7 and 8) on the cells of a navigated region.

use vstd::prelude::*;

pub mod cells;
pub mod cmu;
pub mod highlight;
pub mod laws;
pub mod leaf;
pub mod nemeth;
pub mod strutil;
pub mod vietnam;
pub mod ueb;

verus! {

/// Transcriber-defined typeform cell strings, read from preferences:
/// the double-struck, sans-serif, fraktur and Greek-variant prefixes
/// used by the final marker substitution.
pub struct TypeformPrefs {
    pub double_struck: String,
    pub sans_serif: String,
    pub fraktur: String,
    pub greek_variant: String,
}

/// The navigation-highlight style.
#[derive(Clone, Copy, PartialEq, Eq, Structural)]
pub enum NavHighlight {
    Off,
    EndPoints,
    All,
}

/// The cleanup of a raw stream under the given code and preferences;
/// unknown codes pass the stream through unchanged.
pub open spec fn spec_code_cleanup(
    code: crate::highlight::BrailleCode,
    raw: Seq<char>,
    start_mode_grade1: bool,
    ds: Seq<char>,
    ss: Seq<char>,
    fr: Seq<char>,
    gv: Seq<char>,
) -> Seq<char> {
    if code == crate::highlight::BrailleCode::Nemeth {
        crate::nemeth::spec_nemeth_cleanup(raw)
    } else if code == crate::highlight::BrailleCode::Ueb {
        crate::ueb::spec_ueb_cleanup(raw, start_mode_grade1, ds, ss, fr, gv)
    } else if code == crate::highlight::BrailleCode::Vietnam {
        crate::vietnam::spec_vietnam_cleanup(raw, ds, ss, fr, gv)
    } else if code == crate::highlight::BrailleCode::Cmu {
        crate::cmu::spec_cmu_cleanup(raw)
    } else {
        raw
    }
}

/// Cleanup followed by the optional navigation overlay.
pub open spec fn spec_cleanup_braille(
    code: crate::highlight::BrailleCode,
    raw: Seq<char>,
    start_mode_grade1: bool,
    ds: Seq<char>,
    ss: Seq<char>,
    fr: Seq<char>,
    gv: Seq<char>,
    nav: NavHighlight,
) -> Seq<char> {
    let cleaned = spec_code_cleanup(code, raw, start_mode_grade1, ds, ss, fr, gv);
    if nav != NavHighlight::Off {
        crate::highlight::spec_highlight_braille(cleaned, code, nav == NavHighlight::All)
    } else {
        cleaned
    }
}

/// Run the cleanup pipeline selected by the braille code, then overlay
/// the navigation highlight when one is asked for.
pub fn cleanup_braille(
    code: crate::highlight::BrailleCode,
    prefs: &TypeformPrefs,
    start_mode_grade1: bool,
    raw: &str,
    nav: NavHighlight,
) -> (r: String)
    ensures
        r@ == spec_cleanup_braille(
            code,
            raw@,
            start_mode_grade1,
            prefs.double_struck@,
            prefs.sans_serif@,
            prefs.fraktur@,
            prefs.greek_variant@,
            nav,
        ),
{
    let cleaned: String = if code == crate::highlight::BrailleCode::Nemeth {
        crate::nemeth::nemeth_cleanup(raw)
    } else if code == crate::highlight::BrailleCode::Ueb {
        crate::ueb::ueb_cleanup(prefs, start_mode_grade1, raw)
    } else if code == crate::highlight::BrailleCode::Vietnam {
        crate::vietnam::vietnam_cleanup(prefs, raw)
    } else if code == crate::highlight::BrailleCode::Cmu {
        crate::cmu::cmu_cleanup(raw)
    } else {
        let v = crate::strutil::to_chars(raw);
        crate::strutil::from_chars(&v)
    };
    if nav != NavHighlight::Off {
        crate::highlight::highlight_braille_chars(cleaned.as_str(), code, nav == NavHighlight::All)
    } else {
        cleaned
    }
}

} // verus!
