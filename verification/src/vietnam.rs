//! Vietnamese-code cleanup: reuses the UEB word-mode conversions and the
//! mode reducer (only to strip redundant letter/number pairs), with
//! code-specific capital-Greek folding and substitution cells.

use vstd::prelude::*;

use crate::ueb::{
    UebDuration, UebMode, spec_capitals, spec_reduce, spec_tw, spec_typeface,
};

verus! {

/// Replace each occurrence of the two adjacent characters `a`,`b` by
/// `rep`, scanning left to right.
pub open spec fn spec_replace_pair(s: Seq<char>, i: int, a: char, b: char, rep: Seq<char>) -> Seq<
    char,
>
    decreases s.len() - i,
{
    if i < 0 || i >= s.len() {
        Seq::empty()
    } else if s[i] == a && i + 1 < s.len() && s[i + 1] == b {
        rep + spec_replace_pair(s, i + 2, a, b, rep)
    } else {
        seq![s[i]] + spec_replace_pair(s, i + 1, a, b, rep)
    }
}

pub fn replace_pair_pass(v: &Vec<char>, a: char, b: char, rep: &Vec<char>) -> (r: Vec<char>)
    ensures
        r@ == spec_replace_pair(v@, 0, a, b, rep@),
{
    let mut out: Vec<char> = Vec::new();
    let mut i: usize = 0;
    while i < v.len()
        invariant
            i <= v@.len(),
            spec_replace_pair(v@, 0, a, b, rep@) == out@ + spec_replace_pair(
                v@,
                i as int,
                a,
                b,
                rep@,
            ),
        decreases v@.len() - i,
    {
        if v[i] == a && i + 1 < v.len() && v[i + 1] == b {
            crate::strutil::push_all(&mut out, rep);
            i = i + 2;
        } else {
            out.push(v[i]);
            i = i + 1;
        }
        proof {
            assert(spec_replace_pair(v@, 0, a, b, rep@) =~= out@ + spec_replace_pair(
                v@,
                i as int,
                a,
                b,
                rep@,
            ));
        }
    }
    out
}

/// The fixed Vietnamese marker-to-cell substitution; the transcriber-
/// defined typeforms come from preferences.
pub open spec fn vietnam_subst_char(
    c: char,
    ds: Seq<char>,
    ss: Seq<char>,
    fr: Seq<char>,
    gv: Seq<char>,
) -> Seq<char> {
    if c == '𝔹' {
        ds
    } else if c == 'S' {
        ss
    } else if c == 'D' {
        fr
    } else if c == 'V' {
        gv
    } else if c == '1' {
        seq!['⠠']
    } else if c == 'B' {
        seq!['⠘']
    } else if c == 'T' {
        seq!['⠈']
    } else if c == 'I' {
        seq!['⠨']
    } else if c == 'G' {
        seq!['⠰']
    } else if c == 'C' || c == '𝐶' {
        seq!['⠨']
    } else if c == 'N' {
        seq!['⠼']
    } else if c == 's' {
        seq!['⠆']
    } else if c == ',' {
        seq!['⠂']
    } else if c == '.' {
        seq!['⠲']
    } else if c == '—' {
        seq!['⠠', '⠤']
    } else if c == '―' {
        seq!['⠐', '⠠', '⠤']
    } else if c == 'W' || c == '𝐖' {
        seq!['⠀']
    } else if c == 'R' || c == 'E' || c == 'H' || c == 'P' || c == 'M' || c == 'L' || c == '𝑐'
        || c == '𝟙' || c == '#' || c == 'o' || c == 'c' || c == 'b' || c == 'w' || c == 'e' {
        Seq::empty()
    } else {
        seq![c]
    }
}

pub open spec fn spec_vietnam_subst(
    s: Seq<char>,
    i: int,
    ds: Seq<char>,
    ss: Seq<char>,
    fr: Seq<char>,
    gv: Seq<char>,
) -> Seq<char>
    decreases s.len() - i,
{
    if i < 0 || i >= s.len() {
        Seq::empty()
    } else {
        vietnam_subst_char(s[i], ds, ss, fr, gv) + spec_vietnam_subst(s, i + 1, ds, ss, fr, gv)
    }
}

fn push_vietnam_subst(
    out: &mut Vec<char>,
    c: char,
    ds: &Vec<char>,
    ss: &Vec<char>,
    fr: &Vec<char>,
    gv: &Vec<char>,
)
    ensures
        final(out)@ == old(out)@ + vietnam_subst_char(c, ds@, ss@, fr@, gv@),
{
    if c == '𝔹' {
        crate::strutil::push_all(out, ds);
    } else if c == 'S' {
        crate::strutil::push_all(out, ss);
    } else if c == 'D' {
        crate::strutil::push_all(out, fr);
    } else if c == 'V' {
        crate::strutil::push_all(out, gv);
    } else if c == '1' {
        out.push('⠠');
    } else if c == 'B' {
        out.push('⠘');
    } else if c == 'T' {
        out.push('⠈');
    } else if c == 'I' {
        out.push('⠨');
    } else if c == 'G' {
        out.push('⠰');
    } else if c == 'C' || c == '𝐶' {
        out.push('⠨');
    } else if c == 'N' {
        out.push('⠼');
    } else if c == 's' {
        out.push('⠆');
    } else if c == ',' {
        out.push('⠂');
    } else if c == '.' {
        out.push('⠲');
    } else if c == '—' {
        out.push('⠠');
        out.push('⠤');
    } else if c == '―' {
        out.push('⠐');
        out.push('⠠');
        out.push('⠤');
    } else if c == 'W' || c == '𝐖' {
        out.push('⠀');
    } else if c == 'R' || c == 'E' || c == 'H' || c == 'P' || c == 'M' || c == 'L' || c == '𝑐'
        || c == '𝟙' || c == '#' || c == 'o' || c == 'c' || c == 'b' || c == 'w' || c == 'e' {
    } else {
        out.push(c);
    }
    proof {
        assert(out@ =~= old(out)@ + vietnam_subst_char(c, ds@, ss@, fr@, gv@));
    }
}

pub fn vietnam_subst_pass(
    v: &Vec<char>,
    ds: &Vec<char>,
    ss: &Vec<char>,
    fr: &Vec<char>,
    gv: &Vec<char>,
) -> (r: Vec<char>)
    ensures
        r@ == spec_vietnam_subst(v@, 0, ds@, ss@, fr@, gv@),
{
    let mut out: Vec<char> = Vec::new();
    let mut i: usize = 0;
    while i < v.len()
        invariant
            i <= v@.len(),
            spec_vietnam_subst(v@, 0, ds@, ss@, fr@, gv@) == out@ + spec_vietnam_subst(
                v@,
                i as int,
                ds@,
                ss@,
                fr@,
                gv@,
            ),
        decreases v@.len() - i,
    {
        push_vietnam_subst(&mut out, v[i], ds, ss, fr, gv);
        i = i + 1;
        proof {
            assert(spec_vietnam_subst(v@, 0, ds@, ss@, fr@, gv@) =~= out@ + spec_vietnam_subst(
                v@,
                i as int,
                ds@,
                ss@,
                fr@,
                gv@,
            ));
        }
    }
    out
}

/// The whole Vietnamese cleanup pipeline over a character sequence.
pub open spec fn spec_vietnam_cleanup(
    s: Seq<char>,
    ds: Seq<char>,
    ss: Seq<char>,
    fr: Seq<char>,
    gv: Seq<char>,
) -> Seq<char> {
    let t = spec_typeface(s, 0, Seq::empty(), Seq::empty());
    let c = spec_capitals(t, 0, false);
    let w = spec_tw(c, 0);
    let g = spec_replace_pair(w, 0, 'C', 'G', seq!['⠸']);
    let g2 = spec_replace_pair(g, 0, 'C', 'C', seq!['⠸']);
    let red = spec_reduce(
        g2,
        0,
        UebMode::Grade1,
        UebDuration::Passage,
        false,
        false,
        Seq::empty(),
        UebMode::Grade1,
        UebDuration::Passage,
    );
    let b = spec_vietnam_subst(red, 0, ds, ss, fr, gv);
    crate::nemeth::spec_collapse_spaces(b, 0)
}

/// Vietnamese cleanup: word-mode conversion, capital-Greek folding, the
/// pair-stripping run of the mode reducer, the final substitution and
/// space collapsing.
pub fn vietnam_cleanup(prefs: &crate::TypeformPrefs, raw: &str) -> (r: String)
    ensures
        r@ == spec_vietnam_cleanup(
            raw@,
            prefs.double_struck@,
            prefs.sans_serif@,
            prefs.fraktur@,
            prefs.greek_variant@,
        ),
{
    let v = crate::strutil::to_chars(raw);
    let v = crate::ueb::typeface_to_word_mode(&v);
    let v = crate::ueb::capitals_to_word_mode(&v);
    let v = crate::ueb::tw_pass(&v);
    let rep: Vec<char> = vec!['⠸'];
    proof {
        assert(rep@ =~= seq!['⠸']);
    }
    let v = replace_pair_pass(&v, 'C', 'G', &rep);
    let v = replace_pair_pass(&v, 'C', 'C', &rep);
    let v = crate::ueb::remove_unneeded_mode_changes(&v, UebMode::Grade1, UebDuration::Passage);
    let ds = crate::strutil::to_chars(prefs.double_struck.as_str());
    let ss = crate::strutil::to_chars(prefs.sans_serif.as_str());
    let fr = crate::strutil::to_chars(prefs.fraktur.as_str());
    let gv = crate::strutil::to_chars(prefs.greek_variant.as_str());
    let v = vietnam_subst_pass(&v, &ds, &ss, &fr, &gv);
    let v = crate::nemeth::collapse_spaces_pass(&v);
    crate::strutil::from_chars(&v)
}

} // verus!
