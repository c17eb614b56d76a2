//! CMU (Spanish/Latin-American) cleanup: capital-prefix folding, the
//! pair-stripping run of the mode reducer, number-continuation removal,
//! the conditional-space marker, and the CMU substitution cells.

use vstd::prelude::*;

use crate::cells::is_cell;
use crate::ueb::{UebDuration, UebMode, spec_reduce};
use crate::vietnam::{replace_pair_pass, spec_replace_pair};

verus! {

/// The fixed CMU marker-to-cell substitution.
pub open spec fn cmu_subst_char(c: char) -> Seq<char> {
    if c == 'B' || c == 'I' {
        seq!['⠔']
    } else if c == '𝔹' {
        seq!['⠬']
    } else if c == 'D' {
        seq!['⠠']
    } else if c == 'G' {
        seq!['⠈']
    } else if c == 'V' {
        seq!['⠈', '⠬']
    } else if c == '1' {
        seq!['⠐']
    } else if c == 'C' || c == '𝐶' {
        seq!['⠨']
    } else if c == 'N' || c == '#' {
        seq!['⠼']
    } else if c == ',' {
        seq!['⠂']
    } else if c == '.' {
        seq!['⠄']
    } else if c == '-' {
        seq!['⠤']
    } else if c == '—' {
        seq!['⠤', '⠤']
    } else if c == 'W' || c == '𝐖' {
        seq!['⠀']
    } else if c == '𝟙' || c == 'S' || c == 'T' || c == 'R' || c == 'E' || c == 'H' || c == 'P'
        || c == '𝑐' || c == 'M' || c == 'L' || c == 's' || c == 'w' || c == 'e' || c == '―' || c
        == 'o' || c == 'c' || c == 'b' {
        Seq::empty()
    } else {
        seq![c]
    }
}

pub open spec fn spec_cmu_subst(s: Seq<char>, i: int) -> Seq<char>
    decreases s.len() - i,
{
    if i < 0 || i >= s.len() {
        Seq::empty()
    } else {
        cmu_subst_char(s[i]) + spec_cmu_subst(s, i + 1)
    }
}

fn push_cmu_subst(out: &mut Vec<char>, c: char)
    ensures
        final(out)@ == old(out)@ + cmu_subst_char(c),
{
    if c == 'B' || c == 'I' {
        out.push('⠔');
    } else if c == '𝔹' {
        out.push('⠬');
    } else if c == 'D' {
        out.push('⠠');
    } else if c == 'G' {
        out.push('⠈');
    } else if c == 'V' {
        out.push('⠈');
        out.push('⠬');
    } else if c == '1' {
        out.push('⠐');
    } else if c == 'C' || c == '𝐶' {
        out.push('⠨');
    } else if c == 'N' || c == '#' {
        out.push('⠼');
    } else if c == ',' {
        out.push('⠂');
    } else if c == '.' {
        out.push('⠄');
    } else if c == '-' {
        out.push('⠤');
    } else if c == '—' {
        out.push('⠤');
        out.push('⠤');
    } else if c == 'W' || c == '𝐖' {
        out.push('⠀');
    } else if c == '𝟙' || c == 'S' || c == 'T' || c == 'R' || c == 'E' || c == 'H' || c == 'P'
        || c == '𝑐' || c == 'M' || c == 'L' || c == 's' || c == 'w' || c == 'e' || c == '―' || c
        == 'o' || c == 'c' || c == 'b' {
    } else {
        out.push(c);
    }
    proof {
        assert(out@ =~= old(out)@ + cmu_subst_char(c));
    }
}

pub fn cmu_subst_pass(v: &Vec<char>) -> (r: Vec<char>)
    ensures
        r@ == spec_cmu_subst(v@, 0),
{
    let mut out: Vec<char> = Vec::new();
    let mut i: usize = 0;
    while i < v.len()
        invariant
            i <= v@.len(),
            spec_cmu_subst(v@, 0) == out@ + spec_cmu_subst(v@, i as int),
        decreases v@.len() - i,
    {
        push_cmu_subst(&mut out, v[i]);
        i = i + 1;
        proof {
            assert(spec_cmu_subst(v@, 0) =~= out@ + spec_cmu_subst(v@, i as int));
        }
    }
    out
}

/// A braille cell with a dot in its lowest column positions: the test
/// that decides whether a conditional space is owed.
pub open spec fn has_low_dots(c: char) -> bool {
    is_cell(c) && (c as u32 - 0x2800) as u32 % 16 != 0
}

/// Expand the conditional-space marker: it becomes a braille space
/// exactly when the cell to its right has one of the low dots; at the
/// end of the stream it always becomes a space.
pub open spec fn spec_cond_space(s: Seq<char>, i: int) -> Seq<char>
    decreases s.len() - i,
{
    if i < 0 || i >= s.len() {
        Seq::empty()
    } else if s[i] == '𝘄' && i + 1 == s.len() {
        seq!['⠀']
    } else if s[i] == '𝘄' && i + 1 < s.len() {
        let c = s[i + 1];
        if has_low_dots(c) {
            seq!['⠀', c] + spec_cond_space(s, i + 2)
        } else {
            seq![c] + spec_cond_space(s, i + 2)
        }
    } else {
        seq![s[i]] + spec_cond_space(s, i + 1)
    }
}

pub fn cond_space_pass(v: &Vec<char>) -> (r: Vec<char>)
    ensures
        r@ == spec_cond_space(v@, 0),
{
    let mut out: Vec<char> = Vec::new();
    let mut i: usize = 0;
    while i < v.len()
        invariant
            i <= v@.len(),
            spec_cond_space(v@, 0) == out@ + spec_cond_space(v@, i as int),
        decreases v@.len() - i,
    {
        if v[i] == '𝘄' && i + 1 == v.len() {
            out.push('⠀');
            i = i + 1;
        } else if v[i] == '𝘄' && i + 1 < v.len() {
            let c = v[i + 1];
            if crate::cells::is_braille_cell(c) && (c as u32 - 0x2800) % 16 != 0 {
                out.push('⠀');
            }
            out.push(c);
            i = i + 2;
        } else {
            out.push(v[i]);
            i = i + 1;
        }
        proof {
            assert(spec_cond_space(v@, 0) =~= out@ + spec_cond_space(v@, i as int));
        }
    }
    out
}

/// The whole CMU cleanup pipeline over a character sequence.
pub open spec fn spec_cmu_cleanup(s: Seq<char>) -> Seq<char> {
    let g = spec_replace_pair(s, 0, 'C', 'G', seq!['⠘']);
    let bb = spec_replace_pair(g, 0, '𝔹', 'C', seq!['⠩']);
    let dc = spec_replace_pair(bb, 0, 'D', 'C', seq!['⠰']);
    let red = spec_reduce(
        dc,
        0,
        UebMode::Grade1,
        UebDuration::Passage,
        false,
        false,
        Seq::empty(),
        UebMode::Grade1,
        UebDuration::Passage,
    );
    let nn = spec_replace_pair(red, 0, '𝑁', 'N', Seq::empty());
    let b = spec_cmu_subst(nn, 0);
    let w = spec_cond_space(b, 0);
    crate::nemeth::spec_collapse_spaces(w, 0)
}

/// CMU cleanup: capital-prefix folding, the pair-stripping run of the
/// mode reducer, number-continuation removal, the final substitution,
/// conditional spaces and space collapsing.
pub fn cmu_cleanup(raw: &str) -> (r: String)
    ensures
        r@ == spec_cmu_cleanup(raw@),
{
    let v = crate::strutil::to_chars(raw);
    let rep_cg: Vec<char> = vec!['⠘'];
    let rep_bc: Vec<char> = vec!['⠩'];
    let rep_dc: Vec<char> = vec!['⠰'];
    let rep_nn: Vec<char> = Vec::new();
    proof {
        assert(rep_cg@ =~= seq!['⠘']);
        assert(rep_bc@ =~= seq!['⠩']);
        assert(rep_dc@ =~= seq!['⠰']);
    }
    let v = replace_pair_pass(&v, 'C', 'G', &rep_cg);
    let v = replace_pair_pass(&v, '𝔹', 'C', &rep_bc);
    let v = replace_pair_pass(&v, 'D', 'C', &rep_dc);
    let v = crate::ueb::remove_unneeded_mode_changes(&v, UebMode::Grade1, UebDuration::Passage);
    let v = replace_pair_pass(&v, '𝑁', 'N', &rep_nn);
    let v = cmu_subst_pass(&v);
    let v = cond_space_pass(&v);
    let v = crate::nemeth::collapse_spaces_pass(&v);
    crate::strutil::from_chars(&v)
}

} // verus!
