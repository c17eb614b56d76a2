//! Nemeth-code cleanup: a fixed pipeline of textual rewrites over the
//! marked braille stream, ending in the marker-to-cell substitution and
//! space normalization.
//!
//! Marker letters used by this code: typeface S B 𝔹 T I R, language
//! E D G V H U, indicators C (capital) N/n (number) P/𝐏 (punctuation)
//! M/m (multipurpose) L/l (letter) b ↑ ↓ (baseline/level), W/w (spaces),
//! ',' (comma), 𝑁 (lone decimal point).

use vstd::prelude::*;

use crate::cells::is_cell;

verus! {

/// Whitespace markers: kept whitespace and comparison-operator whitespace.
pub open spec fn is_space_marker(c: char) -> bool {
    c == 'W' || c == 'w'
}

/// The ten Nemeth digit cells 1..9, 0.
pub open spec fn is_nemeth_digit(c: char) -> bool {
    c == '⠂' || c == '⠆' || c == '⠒' || c == '⠲' || c == '⠢' || c == '⠖' || c == '⠶'
        || c == '⠦' || c == '⠔' || c == '⠴'
}

pub fn nemeth_digit(c: char) -> (r: bool)
    ensures
        r == is_nemeth_digit(c),
{
    c == '⠂' || c == '⠆' || c == '⠒' || c == '⠲' || c == '⠢' || c == '⠖' || c == '⠶'
        || c == '⠦' || c == '⠔' || c == '⠴'
}

/// An ellipsis (three dot-3 cells) at `i`; the dash form is four dot-36
/// cells.  Returns the length of the run, or 0 when neither is present.
pub open spec fn ellipsis_or_dash_len(s: Seq<char>, i: int) -> int {
    if i + 3 <= s.len() && s[i] == '⠄' && s[i + 1] == '⠄' && s[i + 2] == '⠄' {
        3
    } else if i + 4 <= s.len() && s[i] == '⠤' && s[i + 1] == '⠤' && s[i + 2] == '⠤' && s[i + 3]
        == '⠤' {
        4
    } else {
        0
    }
}

fn ellipsis_or_dash(v: &Vec<char>, i: usize) -> (r: usize)
    requires
        i <= v@.len(),
    ensures
        r as int == ellipsis_or_dash_len(v@, i as int),
{
    if v.len() - i >= 3 && v[i] == '⠄' && v[i + 1] == '⠄' && v[i + 2] == '⠄' {
        3
    } else if v.len() - i >= 4 && v[i] == '⠤' && v[i + 1] == '⠤' && v[i + 2] == '⠤' && v[i + 3]
        == '⠤' {
        4
    } else {
        0
    }
}

/// The length of the run of W/w markers starting at `i`.
pub open spec fn space_run_len(s: Seq<char>, i: int) -> int
    decreases s.len() - i,
{
    if 0 <= i && i < s.len() && is_space_marker(s[i]) {
        1 + space_run_len(s, i + 1)
    } else {
        0
    }
}

/// The run length is never negative.
pub proof fn lemma_space_run_nonneg(s: Seq<char>, i: int)
    ensures
        space_run_len(s, i) >= 0,
    decreases s.len() - i,
{
    if 0 <= i && i < s.len() && is_space_marker(s[i]) {
        lemma_space_run_nonneg(s, i + 1);
    }
}

fn space_run(v: &Vec<char>, i: usize) -> (r: usize)
    requires
        i <= v@.len(),
    ensures
        r as int == space_run_len(v@, i as int),
        i + r <= v@.len(),
{
    let mut j = i;
    while j < v.len() && (v[j] == 'W' || v[j] == 'w')
        invariant
            i <= j <= v@.len(),
            space_run_len(v@, i as int) == (j - i) + space_run_len(v@, j as int),
        decreases v@.len() - j,
    {
        j = j + 1;
    }
    j - i
}

/// Enclosed-list numeric indicator: a digit cell directly after a 'w'
/// space gets a required numeric indicator 'n' inserted between them.
pub open spec fn spec_enclosed_list(s: Seq<char>, i: int) -> Seq<char>
    decreases s.len() - i,
{
    if i < 0 || i >= s.len() {
        Seq::empty()
    } else if s[i] == 'w' && i + 1 < s.len() && is_nemeth_digit(s[i + 1]) {
        seq!['w', 'n', s[i + 1]] + spec_enclosed_list(s, i + 2)
    } else {
        seq![s[i]] + spec_enclosed_list(s, i + 1)
    }
}

pub fn enclosed_list_pass(v: &Vec<char>) -> (r: Vec<char>)
    ensures
        r@ == spec_enclosed_list(v@, 0),
{
    let mut out: Vec<char> = Vec::new();
    let mut i: usize = 0;
    while i < v.len()
        invariant
            i <= v@.len(),
            spec_enclosed_list(v@, 0) == out@ + spec_enclosed_list(v@, i as int),
        decreases v@.len() - i,
    {
        if v[i] == 'w' && i + 1 < v.len() && nemeth_digit(v[i + 1]) {
            out.push('w');
            out.push('n');
            out.push(v[i + 1]);
            i = i + 2;
        } else {
            out.push(v[i]);
            i = i + 1;
        }
        proof {
            assert(spec_enclosed_list(v@, 0) =~= out@ + spec_enclosed_list(v@, i as int));
        }
    }
    out
}

/// Remove space markers between an ellipsis or long dash and a following
/// fraction, cancellation or letter indicator cell.
pub open spec fn spec_space_before_ind(s: Seq<char>, i: int) -> Seq<char>
    decreases s.len() - i,
{
    if i < 0 || i >= s.len() {
        Seq::empty()
    } else {
        let d = ellipsis_or_dash_len(s, i);
        let run = space_run_len(s, i + d);
        if d > 0 && run > 0 && i + d + run < s.len() && (s[i + d + run] == '⠼' || s[i + d + run]
            == '⠸' || s[i + d + run] == '⠪') {
            s.subrange(i, i + d) + seq![s[i + d + run]] + spec_space_before_ind(s, i + d + run + 1)
        } else {
            seq![s[i]] + spec_space_before_ind(s, i + 1)
        }
    }
}

pub fn space_before_ind_pass(v: &Vec<char>) -> (r: Vec<char>)
    ensures
        r@ == spec_space_before_ind(v@, 0),
{
    let mut out: Vec<char> = Vec::new();
    let mut i: usize = 0;
    while i < v.len()
        invariant
            i <= v@.len(),
            spec_space_before_ind(v@, 0) == out@ + spec_space_before_ind(v@, i as int),
        decreases v@.len() - i,
    {
        let d = ellipsis_or_dash(v, i);
        let run = if d > 0 {
            space_run(v, i + d)
        } else {
            0
        };
        if d > 0 && run > 0 && i + d + run < v.len() && (v[i + d + run] == '⠼' || v[i + d + run]
            == '⠸' || v[i + d + run] == '⠪') {
            crate::strutil::push_range(&mut out, v, i, i + d);
            out.push(v[i + d + run]);
            i = i + d + run + 1;
        } else {
            out.push(v[i]);
            i = i + 1;
        }
        proof {
            assert(spec_space_before_ind(v@, 0) =~= out@ + spec_space_before_ind(v@, i as int));
        }
    }
    out
}

/// Remove space markers between a fraction/cancellation/letter/baseline
/// indicator and a following ellipsis or long dash.
pub open spec fn spec_space_after_ind(s: Seq<char>, i: int) -> Seq<char>
    decreases s.len() - i,
{
    if i < 0 || i >= s.len() {
        Seq::empty()
    } else if s[i] == '⠹' || s[i] == '⠻' || s[i] == 'L' || s[i] == 'l' || s[i] == 'b' {
        let run = space_run_len(s, i + 1);
        let d = ellipsis_or_dash_len(s, i + 1 + run);
        if run > 0 && d > 0 {
            seq![s[i]] + s.subrange(i + 1 + run, i + 1 + run + d) + spec_space_after_ind(
                s,
                i + 1 + run + d,
            )
        } else {
            seq![s[i]] + spec_space_after_ind(s, i + 1)
        }
    } else {
        seq![s[i]] + spec_space_after_ind(s, i + 1)
    }
}

pub fn space_after_ind_pass(v: &Vec<char>) -> (r: Vec<char>)
    ensures
        r@ == spec_space_after_ind(v@, 0),
{
    let mut out: Vec<char> = Vec::new();
    let mut i: usize = 0;
    while i < v.len()
        invariant
            i <= v@.len(),
            spec_space_after_ind(v@, 0) == out@ + spec_space_after_ind(v@, i as int),
        decreases v@.len() - i,
    {
        if v[i] == '⠹' || v[i] == '⠻' || v[i] == 'L' || v[i] == 'l' || v[i] == 'b' {
            let run = space_run(v, i + 1);
            let d = ellipsis_or_dash(v, i + 1 + run);
            if run > 0 && d > 0 {
                out.push(v[i]);
                crate::strutil::push_range(&mut out, v, i + 1 + run, i + 1 + run + d);
                i = i + 1 + run + d;
            } else {
                out.push(v[i]);
                i = i + 1;
            }
        } else {
            out.push(v[i]);
            i = i + 1;
        }
        proof {
            assert(spec_space_after_ind(v@, 0) =~= out@ + spec_space_after_ind(v@, i as int));
        }
    }
    out
}

/// The punctuation-or-fence group of rule 151: a punctuation pair `P`
/// plus one character, optionally followed by a dash/quote/cap cell, or
/// an optional cell followed by the given fence cell.  Returns the group
/// length at `j`, or 0 when none starts there.
pub open spec fn punct_group_len(s: Seq<char>, j: int, fence: char) -> int {
    if j < 0 || j >= s.len() {
        0
    } else if s[j] == 'P' && j + 1 < s.len() {
        if j + 2 < s.len() && (s[j + 2] == '⠤' || s[j + 2] == '⠦' || s[j + 2] == '⠠') {
            3
        } else {
            2
        }
    } else if j + 1 < s.len() && is_cell(s[j]) && s[j + 1] == fence {
        2
    } else if s[j] == fence {
        1
    } else {
        0
    }
}

fn punct_group(v: &Vec<char>, j: usize, fence: char) -> (r: usize)
    requires
        j <= v@.len(),
    ensures
        r as int == punct_group_len(v@, j as int, fence),
{
    if j >= v.len() {
        0
    } else if v[j] == 'P' && v.len() - j >= 2 {
        if v.len() - j >= 3 && (v[j + 2] == '⠤' || v[j + 2] == '⠦' || v[j + 2] == '⠠') {
            3
        } else {
            2
        }
    } else if v.len() - j >= 2 && crate::cells::is_braille_cell(v[j]) && v[j + 1] == fence {
        2
    } else if v[j] == fence {
        1
    } else {
        0
    }
}

/// Remove a comparison-operator space before punctuation or a close fence.
pub open spec fn spec_space_before_punct(s: Seq<char>, i: int) -> Seq<char>
    decreases s.len() - i,
{
    if i < 0 || i >= s.len() {
        Seq::empty()
    } else if s[i] == 'w' && punct_group_len(s, i + 1, '⠾') > 0 {
        let g = punct_group_len(s, i + 1, '⠾');
        s.subrange(i + 1, i + 1 + g) + spec_space_before_punct(s, i + 1 + g)
    } else {
        seq![s[i]] + spec_space_before_punct(s, i + 1)
    }
}

pub fn space_before_punct_pass(v: &Vec<char>) -> (r: Vec<char>)
    ensures
        r@ == spec_space_before_punct(v@, 0),
{
    let mut out: Vec<char> = Vec::new();
    let mut i: usize = 0;
    while i < v.len()
        invariant
            i <= v@.len(),
            spec_space_before_punct(v@, 0) == out@ + spec_space_before_punct(v@, i as int),
        decreases v@.len() - i,
    {
        let g = if v[i] == 'w' {
            punct_group(v, i + 1, '⠾')
        } else {
            0
        };
        if v[i] == 'w' && g > 0 {
            crate::strutil::push_range(&mut out, v, i + 1, i + 1 + g);
            i = i + 1 + g;
        } else {
            out.push(v[i]);
            i = i + 1;
        }
        proof {
            assert(spec_space_before_punct(v@, 0) =~= out@ + spec_space_before_punct(v@, i as int));
        }
    }
    out
}

/// Remove a comparison-operator space after punctuation or an open fence.
/// The group alternatives backtrack against the trailing 'w'.
pub open spec fn spec_space_after_punct(s: Seq<char>, i: int) -> Seq<char>
    decreases s.len() - i,
{
    if i < 0 || i >= s.len() {
        Seq::empty()
    } else if s[i] == 'P' && i + 2 < s.len() && (s[i + 2] == '⠤' || s[i + 2] == '⠦' || s[i + 2]
        == '⠠') && i + 3 < s.len() && s[i + 3] == 'w' {
        s.subrange(i, i + 3) + spec_space_after_punct(s, i + 4)
    } else if s[i] == 'P' && i + 2 < s.len() && s[i + 2] == 'w' {
        s.subrange(i, i + 2) + spec_space_after_punct(s, i + 3)
    } else if is_cell(s[i]) && i + 2 < s.len() && s[i + 1] == '⠷' && s[i + 2] == 'w' {
        s.subrange(i, i + 2) + spec_space_after_punct(s, i + 3)
    } else if s[i] == '⠷' && i + 1 < s.len() && s[i + 1] == 'w' {
        seq!['⠷'] + spec_space_after_punct(s, i + 2)
    } else {
        seq![s[i]] + spec_space_after_punct(s, i + 1)
    }
}

pub fn space_after_punct_pass(v: &Vec<char>) -> (r: Vec<char>)
    ensures
        r@ == spec_space_after_punct(v@, 0),
{
    let mut out: Vec<char> = Vec::new();
    let mut i: usize = 0;
    while i < v.len()
        invariant
            i <= v@.len(),
            spec_space_after_punct(v@, 0) == out@ + spec_space_after_punct(v@, i as int),
        decreases v@.len() - i,
    {
        if v[i] == 'P' && v.len() - i >= 4 && (v[i + 2] == '⠤' || v[i + 2] == '⠦' || v[i + 2]
            == '⠠') && v[i + 3] == 'w' {
            crate::strutil::push_range(&mut out, v, i, i + 3);
            i = i + 4;
        } else if v[i] == 'P' && v.len() - i >= 3 && v[i + 2] == 'w' {
            crate::strutil::push_range(&mut out, v, i, i + 2);
            i = i + 3;
        } else if crate::cells::is_braille_cell(v[i]) && v.len() - i >= 3 && v[i + 1] == '⠷' && v[i
            + 2] == 'w' {
            crate::strutil::push_range(&mut out, v, i, i + 2);
            i = i + 3;
        } else if v[i] == '⠷' && v.len() - i >= 2 && v[i + 1] == 'w' {
            out.push('⠷');
            i = i + 2;
        } else {
            out.push(v[i]);
            i = i + 1;
        }
        proof {
            assert(spec_space_after_punct(v@, 0) =~= out@ + spec_space_after_punct(v@, i as int));
        }
    }
    out
}

/// A lone decimal point between a multipurpose indicator and a digit is
/// really numeric: "𝑁⠨mN" becomes "N⠨mN".
pub open spec fn spec_lone_decimal(s: Seq<char>, i: int) -> Seq<char>
    decreases s.len() - i,
{
    if i < 0 || i >= s.len() {
        Seq::empty()
    } else if i + 3 < s.len() && s[i] == '𝑁' && s[i + 1] == '⠨' && s[i + 2] == 'm' && s[i + 3]
        == 'N' {
        seq!['N', '⠨', 'm', 'N'] + spec_lone_decimal(s, i + 4)
    } else {
        seq![s[i]] + spec_lone_decimal(s, i + 1)
    }
}

pub fn lone_decimal_pass(v: &Vec<char>) -> (r: Vec<char>)
    ensures
        r@ == spec_lone_decimal(v@, 0),
{
    let mut out: Vec<char> = Vec::new();
    let mut i: usize = 0;
    while i < v.len()
        invariant
            i <= v@.len(),
            spec_lone_decimal(v@, 0) == out@ + spec_lone_decimal(v@, i as int),
        decreases v@.len() - i,
    {
        if v.len() - i >= 4 && v[i] == '𝑁' && v[i + 1] == '⠨' && v[i + 2] == 'm' && v[i + 3]
            == 'N' {
            out.push('N');
            out.push('⠨');
            out.push('m');
            out.push('N');
            i = i + 4;
        } else {
            out.push(v[i]);
            i = i + 1;
        }
        proof {
            assert(spec_lone_decimal(v@, 0) =~= out@ + spec_lone_decimal(v@, i as int));
        }
    }
    out
}

/// Rule 149: two consecutive comparison-operator spaces become one
/// required multipurpose indicator.
pub open spec fn spec_double_space(s: Seq<char>, i: int) -> Seq<char>
    decreases s.len() - i,
{
    if i < 0 || i >= s.len() {
        Seq::empty()
    } else if i + 1 < s.len() && s[i] == 'w' && s[i + 1] == 'w' {
        seq!['m'] + spec_double_space(s, i + 2)
    } else {
        seq![s[i]] + spec_double_space(s, i + 1)
    }
}

pub fn double_space_pass(v: &Vec<char>) -> (r: Vec<char>)
    ensures
        r@ == spec_double_space(v@, 0),
{
    let mut out: Vec<char> = Vec::new();
    let mut i: usize = 0;
    while i < v.len()
        invariant
            i <= v@.len(),
            spec_double_space(v@, 0) == out@ + spec_double_space(v@, i as int),
        decreases v@.len() - i,
    {
        if v.len() - i >= 2 && v[i] == 'w' && v[i + 1] == 'w' {
            out.push('m');
            i = i + 2;
        } else {
            out.push(v[i]);
            i = i + 1;
        }
        proof {
            assert(spec_double_space(v@, 0) =~= out@ + spec_double_space(v@, i as int));
        }
    }
    out
}

/// Rule 177.2: a required multipurpose indicator between a letter body
/// and a following digit marker.
pub open spec fn spec_multi_177_2(s: Seq<char>, i: int) -> Seq<char>
    decreases s.len() - i,
{
    if i < 0 || i >= s.len() {
        Seq::empty()
    } else if (s[i] == 'L' || s[i] == 'l') && i + 2 < s.len() && (s[i + 2] == 'N' || s[i + 2]
        == '𝑁') {
        seq![s[i], s[i + 1], 'm', s[i + 2]] + spec_multi_177_2(s, i + 3)
    } else {
        seq![s[i]] + spec_multi_177_2(s, i + 1)
    }
}

pub fn multi_177_2_pass(v: &Vec<char>) -> (r: Vec<char>)
    ensures
        r@ == spec_multi_177_2(v@, 0),
{
    let mut out: Vec<char> = Vec::new();
    let mut i: usize = 0;
    while i < v.len()
        invariant
            i <= v@.len(),
            spec_multi_177_2(v@, 0) == out@ + spec_multi_177_2(v@, i as int),
        decreases v@.len() - i,
    {
        if (v[i] == 'L' || v[i] == 'l') && v.len() - i >= 3 && (v[i + 2] == 'N' || v[i + 2]
            == '𝑁') {
            out.push(v[i]);
            out.push(v[i + 1]);
            out.push('m');
            out.push(v[i + 2]);
            i = i + 3;
        } else {
            out.push(v[i]);
            i = i + 1;
        }
        proof {
            assert(spec_multi_177_2(v@, 0) =~= out@ + spec_multi_177_2(v@, i as int));
        }
    }
    out
}

/// Rule 177.3: the multipurpose indicator between a numeric subscript and
/// a following digit is required.
pub open spec fn spec_multi_177_3(s: Seq<char>, i: int) -> Seq<char>
    decreases s.len() - i,
{
    if i < 0 || i >= s.len() {
        Seq::empty()
    } else if (s[i] == 'N' || s[i] == '𝑁') && i + 4 < s.len() && s[i + 2] == 'M' && (s[i + 3] == 'N'
        || s[i + 3] == '𝑁') {
        seq![s[i], s[i + 1], 'm', s[i + 3], s[i + 4]] + spec_multi_177_3(s, i + 5)
    } else {
        seq![s[i]] + spec_multi_177_3(s, i + 1)
    }
}

pub fn multi_177_3_pass(v: &Vec<char>) -> (r: Vec<char>)
    ensures
        r@ == spec_multi_177_3(v@, 0),
{
    let mut out: Vec<char> = Vec::new();
    let mut i: usize = 0;
    while i < v.len()
        invariant
            i <= v@.len(),
            spec_multi_177_3(v@, 0) == out@ + spec_multi_177_3(v@, i as int),
        decreases v@.len() - i,
    {
        if (v[i] == 'N' || v[i] == '𝑁') && v.len() - i >= 5 && v[i + 2] == 'M' && (v[i + 3] == 'N'
            || v[i + 3] == '𝑁') {
            out.push(v[i]);
            out.push(v[i + 1]);
            out.push('m');
            out.push(v[i + 3]);
            out.push(v[i + 4]);
            i = i + 5;
        } else {
            out.push(v[i]);
            i = i + 1;
        }
        proof {
            assert(spec_multi_177_3(v@, 0) =~= out@ + spec_multi_177_3(v@, i as int));
        }
    }
    out
}

/// Rule 177.5: after a decimal point, a multipurpose indicator is needed
/// before anything that is not a digit, comma, punctuation, another
/// number marker, or an already-required multipurpose indicator.
pub open spec fn multi_177_5_excluded(c: char) -> bool {
    is_nemeth_digit(c) || c == 'N' || c == '𝑁' || c == ',' || c == 'P' || c == 'm'
}

pub open spec fn spec_multi_177_5(s: Seq<char>, i: int) -> Seq<char>
    decreases s.len() - i,
{
    if i < 0 || i >= s.len() {
        Seq::empty()
    } else if (s[i] == 'N' || s[i] == '𝑁') && i + 2 < s.len() && s[i + 1] == '⠨' && !multi_177_5_excluded(
        s[i + 2],
    ) {
        seq![s[i], '⠨', 'm', s[i + 2]] + spec_multi_177_5(s, i + 3)
    } else {
        seq![s[i]] + spec_multi_177_5(s, i + 1)
    }
}

pub fn multi_177_5_pass(v: &Vec<char>) -> (r: Vec<char>)
    ensures
        r@ == spec_multi_177_5(v@, 0),
{
    let mut out: Vec<char> = Vec::new();
    let mut i: usize = 0;
    while i < v.len()
        invariant
            i <= v@.len(),
            spec_multi_177_5(v@, 0) == out@ + spec_multi_177_5(v@, i as int),
        decreases v@.len() - i,
    {
        let hit = (v[i] == 'N' || v[i] == '𝑁') && v.len() - i >= 3 && v[i + 1] == '⠨' && !(
        nemeth_digit(v[i + 2]) || v[i + 2] == 'N' || v[i + 2] == '𝑁' || v[i + 2] == ',' || v[i + 2]
            == 'P' || v[i + 2] == 'm');
        if hit {
            out.push(v[i]);
            out.push('⠨');
            out.push('m');
            out.push(v[i + 2]);
            i = i + 3;
        } else {
            out.push(v[i]);
            i = i + 1;
        }
        proof {
            assert(spec_multi_177_5(v@, 0) =~= out@ + spec_multi_177_5(v@, i as int));
        }
    }
    out
}

/// Rule 9a: a numeric indicator at the start of a segment or after a
/// space or comma, with an optional minus sign in between.
pub open spec fn spec_num_ind_9a(s: Seq<char>, i: int) -> Seq<char>
    decreases s.len() - i,
{
    if i < 0 || i >= s.len() {
        Seq::empty()
    } else if i == 0 && s[0] == '⠤' && 1 < s.len() && s[1] == 'N' {
        seq!['⠤', 'n'] + spec_num_ind_9a(s, 2)
    } else if i == 0 && s[0] == 'N' {
        seq!['n'] + spec_num_ind_9a(s, 1)
    } else if (s[i] == ',' || is_space_marker(s[i])) && i + 2 < s.len() && s[i + 1] == '⠤' && s[i
        + 2] == 'N' {
        seq![s[i], '⠤', 'n'] + spec_num_ind_9a(s, i + 3)
    } else if (s[i] == ',' || is_space_marker(s[i])) && i + 1 < s.len() && s[i + 1] == 'N' {
        seq![s[i], 'n'] + spec_num_ind_9a(s, i + 2)
    } else {
        seq![s[i]] + spec_num_ind_9a(s, i + 1)
    }
}

pub fn num_ind_9a_pass(v: &Vec<char>) -> (r: Vec<char>)
    ensures
        r@ == spec_num_ind_9a(v@, 0),
{
    let mut out: Vec<char> = Vec::new();
    let mut i: usize = 0;
    while i < v.len()
        invariant
            i <= v@.len(),
            spec_num_ind_9a(v@, 0) == out@ + spec_num_ind_9a(v@, i as int),
        decreases v@.len() - i,
    {
        if i == 0 && v[0] == '⠤' && v.len() >= 2 && v[1] == 'N' {
            out.push('⠤');
            out.push('n');
            i = 2;
        } else if i == 0 && v[0] == 'N' {
            out.push('n');
            i = 1;
        } else if (v[i] == ',' || v[i] == 'W' || v[i] == 'w') && v.len() - i >= 3 && v[i + 1]
            == '⠤' && v[i + 2] == 'N' {
            out.push(v[i]);
            out.push('⠤');
            out.push('n');
            i = i + 3;
        } else if (v[i] == ',' || v[i] == 'W' || v[i] == 'w') && v.len() - i >= 2 && v[i + 1]
            == 'N' {
            out.push(v[i]);
            out.push('n');
            i = i + 2;
        } else {
            out.push(v[i]);
            i = i + 1;
        }
        proof {
            assert(spec_num_ind_9a(v@, 0) =~= out@ + spec_num_ind_9a(v@, i as int));
        }
    }
    out
}

/// The reference-symbol cells of rule 9c (section, paragraph marks),
/// with an optional preceding minus.  Returns the symbol length at `j`.
pub open spec fn ref_symbol_9c_len(s: Seq<char>, j: int) -> int {
    if 0 <= j && j + 1 < s.len() && s[j] == '⠠' && (s[j + 1] == '⠷' || s[j + 1] == '⠳') {
        2
    } else if 0 <= j && j + 2 < s.len() && s[j] == '⠠' && s[j + 1] == '⠈' && s[j + 2] == '⠷' {
        3
    } else {
        0
    }
}

/// Rule 9c: a numeric indicator after a section or paragraph mark.
pub open spec fn spec_num_ind_9c(s: Seq<char>, i: int) -> Seq<char>
    decreases s.len() - i,
{
    if i < 0 || i >= s.len() {
        Seq::empty()
    } else {
        let m: int = if s[i] == '⠤' {
            1
        } else {
            0
        };
        let g = ref_symbol_9c_len(s, i + m);
        if g > 0 && i + m + g < s.len() && s[i + m + g] == 'N' {
            s.subrange(i, i + m + g) + seq!['n'] + spec_num_ind_9c(s, i + m + g + 1)
        } else {
            seq![s[i]] + spec_num_ind_9c(s, i + 1)
        }
    }
}

pub fn num_ind_9c_pass(v: &Vec<char>) -> (r: Vec<char>)
    ensures
        r@ == spec_num_ind_9c(v@, 0),
{
    let mut out: Vec<char> = Vec::new();
    let mut i: usize = 0;
    while i < v.len()
        invariant
            i <= v@.len(),
            spec_num_ind_9c(v@, 0) == out@ + spec_num_ind_9c(v@, i as int),
        decreases v@.len() - i,
    {
        let m: usize = if v[i] == '⠤' {
            1
        } else {
            0
        };
        let g: usize = if v.len() - (i + m) >= 2 && v[i + m] == '⠠' && (v[i + m + 1] == '⠷' || v[i
            + m + 1] == '⠳') {
            2
        } else if v.len() - (i + m) >= 3 && v[i + m] == '⠠' && v[i + m + 1] == '⠈' && v[i + m + 2]
            == '⠷' {
            3
        } else {
            0
        };
        if g > 0 && i + m + g < v.len() && v[i + m + g] == 'N' {
            crate::strutil::push_range(&mut out, v, i, i + m + g);
            out.push('n');
            i = i + m + g + 1;
        } else {
            out.push(v[i]);
            i = i + 1;
        }
        proof {
            assert(spec_num_ind_9c(v@, 0) =~= out@ + spec_num_ind_9c(v@, i as int));
        }
    }
    out
}

/// The typographic-symbol cells of rule 9d.  Returns the length at `j`.
pub open spec fn ref_symbol_9d_len(s: Seq<char>, j: int) -> int {
    if 0 <= j && j + 2 < s.len() && s[j] == '⠈' && s[j + 1] == '⠠' && (s[j + 2] == '⠎' || s[j + 2]
        == '⠏') {
        3
    } else if 0 <= j && j + 1 < s.len() && s[j] == '⠈' && s[j + 1] == '⠼' {
        2
    } else if 0 <= j && j + 1 < s.len() && s[j] == '⠨' && s[j + 1] == '⠼' {
        2
    } else {
        0
    }
}

/// Rule 9d: a numeric indicator after a typographic reference symbol.
pub open spec fn spec_num_ind_9d(s: Seq<char>, i: int) -> Seq<char>
    decreases s.len() - i,
{
    if i < 0 || i >= s.len() {
        Seq::empty()
    } else {
        let g = ref_symbol_9d_len(s, i);
        if g > 0 && i + g < s.len() && s[i + g] == 'N' {
            s.subrange(i, i + g) + seq!['n'] + spec_num_ind_9d(s, i + g + 1)
        } else {
            seq![s[i]] + spec_num_ind_9d(s, i + 1)
        }
    }
}

pub fn num_ind_9d_pass(v: &Vec<char>) -> (r: Vec<char>)
    ensures
        r@ == spec_num_ind_9d(v@, 0),
{
    let mut out: Vec<char> = Vec::new();
    let mut i: usize = 0;
    while i < v.len()
        invariant
            i <= v@.len(),
            spec_num_ind_9d(v@, 0) == out@ + spec_num_ind_9d(v@, i as int),
        decreases v@.len() - i,
    {
        let g: usize = if v.len() - i >= 4 && v[i] == '⠈' && v[i + 1] == '⠠' && (v[i + 2] == '⠎'
            || v[i + 2] == '⠏') {
            3
        } else if v.len() - i >= 3 && v[i] == '⠈' && v[i + 1] == '⠼' {
            2
        } else if v.len() - i >= 3 && v[i] == '⠨' && v[i + 1] == '⠼' {
            2
        } else {
            0
        };
        if g > 0 && i + g < v.len() && v[i + g] == 'N' {
            crate::strutil::push_range(&mut out, v, i, i + g);
            out.push('n');
            i = i + g + 1;
        } else {
            out.push(v[i]);
            i = i + 1;
        }
        proof {
            assert(spec_num_ind_9d(v@, 0) =~= out@ + spec_num_ind_9d(v@, i as int));
        }
    }
    out
}

/// A typeface marker of the Nemeth alphabet.
pub open spec fn is_typeface_marker(c: char) -> bool {
    c == 'S' || c == 'B' || c == 'T' || c == 'I' || c == 'R'
}

/// Rule 9e: a number marker right after a typeface change becomes a
/// required numeric indicator.
pub open spec fn spec_num_ind_9e(s: Seq<char>) -> Seq<char> {
    Seq::new(
        s.len(),
        |k: int|
            if s[k] == 'N' && k > 0 && is_typeface_marker(s[k - 1]) {
                'n'
            } else {
                s[k]
            },
    )
}

pub fn num_ind_9e_pass(v: &Vec<char>) -> (r: Vec<char>)
    ensures
        r@ == spec_num_ind_9e(v@),
{
    let mut out: Vec<char> = Vec::new();
    let mut i: usize = 0;
    while i < v.len()
        invariant
            i <= v@.len(),
            out@ == spec_num_ind_9e(v@).take(i as int),
        decreases v@.len() - i,
    {
        if v[i] == 'N' && i > 0 && (v[i - 1] == 'S' || v[i - 1] == 'B' || v[i - 1] == 'T' || v[i
            - 1] == 'I' || v[i - 1] == 'R') {
            out.push('n');
        } else {
            out.push(v[i]);
        }
        i = i + 1;
        proof {
            assert(out@ =~= spec_num_ind_9e(v@).take(i as int));
        }
    }
    proof {
        assert(spec_num_ind_9e(v@).take(v@.len() as int) =~= spec_num_ind_9e(v@));
    }
    out
}

/// Rule 9e for shapes: a number marker after an interior shape modifier.
pub open spec fn spec_num_ind_9e_shape(s: Seq<char>) -> Seq<char> {
    Seq::new(
        s.len(),
        |k: int|
            if s[k] == 'N' && k >= 2 && s[k - 2] == '⠸' && s[k - 1] == '⠫' {
                'n'
            } else {
                s[k]
            },
    )
}

pub fn num_ind_9e_shape_pass(v: &Vec<char>) -> (r: Vec<char>)
    ensures
        r@ == spec_num_ind_9e_shape(v@),
{
    let mut out: Vec<char> = Vec::new();
    let mut i: usize = 0;
    while i < v.len()
        invariant
            i <= v@.len(),
            out@ == spec_num_ind_9e_shape(v@).take(i as int),
        decreases v@.len() - i,
    {
        if v[i] == 'N' && i >= 2 && v[i - 2] == '⠸' && v[i - 1] == '⠫' {
            out.push('n');
        } else {
            out.push(v[i]);
        }
        i = i + 1;
        proof {
            assert(out@ =~= spec_num_ind_9e_shape(v@).take(i as int));
        }
    }
    proof {
        assert(spec_num_ind_9e_shape(v@).take(v@.len() as int) =~= spec_num_ind_9e_shape(v@));
    }
    out
}

/// Two letter pairs starting at `j`: the word lookbehind of rule 9f.
pub open spec fn two_letter_pairs_at(s: Seq<char>, j: int) -> bool {
    j >= 0 && (s[j] == 'L' || s[j] == 'l') && (s[j + 2] == 'L' || s[j + 2] == 'l')
}

/// Rule 9f: a number marker after a hyphen that follows a word,
/// abbreviation or punctuation becomes a required numeric indicator.
pub open spec fn num_ind_9f_hit(s: Seq<char>, k: int) -> bool {
    s[k] == 'N' && k >= 1 && s[k - 1] == '⠤' && ((k >= 2 && s[k - 2] == 'P' && (two_letter_pairs_at(
        s,
        k - 6,
    ) || (k >= 4 && s[k - 4] == 'P'))) || (two_letter_pairs_at(s, k - 5) || (k >= 3 && s[k - 3]
        == 'P')))
}

pub open spec fn spec_num_ind_9f(s: Seq<char>) -> Seq<char> {
    Seq::new(
        s.len(),
        |k: int|
            if num_ind_9f_hit(s, k) {
                'n'
            } else {
                s[k]
            },
    )
}

pub fn num_ind_9f_pass(v: &Vec<char>) -> (r: Vec<char>)
    ensures
        r@ == spec_num_ind_9f(v@),
{
    let mut out: Vec<char> = Vec::new();
    let mut i: usize = 0;
    while i < v.len()
        invariant
            i <= v@.len(),
            out@ == spec_num_ind_9f(v@).take(i as int),
        decreases v@.len() - i,
    {
        let hit = v[i] == 'N' && i >= 1 && v[i - 1] == '⠤' && ((i >= 2 && v[i - 2] == 'P' && ((i
            >= 6 && (v[i - 6] == 'L' || v[i - 6] == 'l') && (v[i - 4] == 'L' || v[i - 4] == 'l'))
            || (i >= 4 && v[i - 4] == 'P'))) || ((i >= 5 && (v[i - 5] == 'L' || v[i - 5] == 'l')
            && (v[i - 3] == 'L' || v[i - 3] == 'l')) || (i >= 3 && v[i - 3] == 'P')));
        if hit {
            out.push('n');
        } else {
            out.push(v[i]);
        }
        i = i + 1;
        proof {
            assert(out@ =~= spec_num_ind_9f(v@).take(i as int));
        }
    }
    proof {
        assert(spec_num_ind_9f(v@).take(v@.len() as int) =~= spec_num_ind_9f(v@));
    }
    out
}

/// Rule 9b: a numeric indicator after one- or two-cell punctuation with
/// an optional minus sign.
pub open spec fn spec_num_ind_9b(s: Seq<char>, i: int) -> Seq<char>
    decreases s.len() - i,
{
    if i < 0 || i >= s.len() {
        Seq::empty()
    } else if s[i] == 'P' && i + 4 < s.len() && s[i + 3] == '⠤' && s[i + 4] == 'N' {
        s.subrange(i, i + 4) + seq!['n'] + spec_num_ind_9b(s, i + 5)
    } else if s[i] == 'P' && i + 3 < s.len() && s[i + 3] == 'N' {
        s.subrange(i, i + 3) + seq!['n'] + spec_num_ind_9b(s, i + 4)
    } else if s[i] == 'P' && i + 3 < s.len() && s[i + 2] == '⠤' && s[i + 3] == 'N' {
        s.subrange(i, i + 3) + seq!['n'] + spec_num_ind_9b(s, i + 4)
    } else if s[i] == 'P' && i + 2 < s.len() && s[i + 2] == 'N' {
        s.subrange(i, i + 2) + seq!['n'] + spec_num_ind_9b(s, i + 3)
    } else {
        seq![s[i]] + spec_num_ind_9b(s, i + 1)
    }
}

pub fn num_ind_9b_pass(v: &Vec<char>) -> (r: Vec<char>)
    ensures
        r@ == spec_num_ind_9b(v@, 0),
{
    let mut out: Vec<char> = Vec::new();
    let mut i: usize = 0;
    while i < v.len()
        invariant
            i <= v@.len(),
            spec_num_ind_9b(v@, 0) == out@ + spec_num_ind_9b(v@, i as int),
        decreases v@.len() - i,
    {
        if v[i] == 'P' && v.len() - i >= 5 && v[i + 3] == '⠤' && v[i + 4] == 'N' {
            crate::strutil::push_range(&mut out, v, i, i + 4);
            out.push('n');
            i = i + 5;
        } else if v[i] == 'P' && v.len() - i >= 4 && v[i + 3] == 'N' {
            crate::strutil::push_range(&mut out, v, i, i + 3);
            out.push('n');
            i = i + 4;
        } else if v[i] == 'P' && v.len() - i >= 4 && v[i + 2] == '⠤' && v[i + 3] == 'N' {
            crate::strutil::push_range(&mut out, v, i, i + 3);
            out.push('n');
            i = i + 4;
        } else if v[i] == 'P' && v.len() - i >= 3 && v[i + 2] == 'N' {
            crate::strutil::push_range(&mut out, v, i, i + 2);
            out.push('n');
            i = i + 3;
        } else {
            out.push(v[i]);
            i = i + 1;
        }
        proof {
            assert(spec_num_ind_9b(v@, 0) =~= out@ + spec_num_ind_9b(v@, i as int));
        }
    }
    out
}

/// The length of the run of level markers (superscript or subscript)
/// starting at `i`.
pub open spec fn arrow_run_len(s: Seq<char>, i: int) -> int
    decreases s.len() - i,
{
    if 0 <= i && i < s.len() && (s[i] == '↑' || s[i] == '↓') {
        1 + arrow_run_len(s, i + 1)
    } else {
        0
    }
}

/// The run length is never negative.
pub proof fn lemma_arrow_run_nonneg(s: Seq<char>, i: int)
    ensures
        arrow_run_len(s, i) >= 0,
    decreases s.len() - i,
{
    if 0 <= i && i < s.len() && (s[i] == '↑' || s[i] == '↓') {
        lemma_arrow_run_nonneg(s, i + 1);
    }
}

fn arrow_run(v: &Vec<char>, i: usize) -> (r: usize)
    requires
        i <= v@.len(),
    ensures
        r as int == arrow_run_len(v@, i as int),
        i + r <= v@.len(),
{
    let mut j = i;
    while j < v.len() && (v[j] == '↑' || v[j] == '↓')
        invariant
            i <= j <= v@.len(),
            arrow_run_len(v@, i as int) == (j - i) + arrow_run_len(v@, j as int),
        decreases v@.len() - j,
    {
        j = j + 1;
    }
    j - i
}

/// A space, comma or punctuation marker, the right context of the
/// level-indicator removal rule.
pub open spec fn is_level_stop(c: char) -> bool {
    c == 'W' || c == 'w' || c == ',' || c == 'P'
}

/// Drop level indicators (and an optional baseline marker), or a lone
/// baseline marker, before whitespace, comma, punctuation or the end.
pub open spec fn spec_level_ind(s: Seq<char>, i: int) -> Seq<char>
    decreases s.len() - i,
{
    if i < 0 || i >= s.len() {
        Seq::empty()
    } else {
        let r = arrow_run_len(s, i);
        if r > 0 && i + r < s.len() && s[i + r] == 'b' && i + r + 1 < s.len() && is_level_stop(
            s[i + r + 1],
        ) {
            seq![s[i + r + 1]] + spec_level_ind(s, i + r + 2)
        } else if r > 0 && i + r < s.len() && s[i + r] == 'b' && i + r + 1 == s.len() {
            Seq::empty()
        } else if r > 0 && i + r < s.len() && is_level_stop(s[i + r]) {
            seq![s[i + r]] + spec_level_ind(s, i + r + 1)
        } else if r > 0 && i + r == s.len() {
            Seq::empty()
        } else if r == 0 && s[i] == 'b' && i + 1 < s.len() && is_level_stop(s[i + 1]) {
            seq![s[i + 1]] + spec_level_ind(s, i + 2)
        } else if r == 0 && s[i] == 'b' && i + 1 == s.len() {
            Seq::empty()
        } else {
            seq![s[i]] + spec_level_ind(s, i + 1)
        }
    }
}

pub fn level_ind_pass(v: &Vec<char>) -> (r: Vec<char>)
    ensures
        r@ == spec_level_ind(v@, 0),
{
    let mut out: Vec<char> = Vec::new();
    let mut i: usize = 0;
    while i < v.len()
        invariant
            i <= v@.len(),
            spec_level_ind(v@, 0) == out@ + spec_level_ind(v@, i as int),
        decreases v@.len() - i,
    {
        let r = arrow_run(v, i);
        if r > 0 && i + r < v.len() && v[i + r] == 'b' && i + r + 1 < v.len() && (v[i + r + 1]
            == 'W' || v[i + r + 1] == 'w' || v[i + r + 1] == ',' || v[i + r + 1] == 'P') {
            out.push(v[i + r + 1]);
            i = i + r + 2;
        } else if r > 0 && i + r < v.len() && v[i + r] == 'b' && i + r + 1 == v.len() {
            i = v.len();
        } else if r > 0 && i + r < v.len() && (v[i + r] == 'W' || v[i + r] == 'w' || v[i + r]
            == ',' || v[i + r] == 'P') {
            out.push(v[i + r]);
            i = i + r + 1;
        } else if r > 0 && i + r == v.len() {
            i = v.len();
        } else if r == 0 && v[i] == 'b' && i + 1 < v.len() && (v[i + 1] == 'W' || v[i + 1] == 'w'
            || v[i + 1] == ',' || v[i + 1] == 'P') {
            out.push(v[i + 1]);
            i = i + 2;
        } else if r == 0 && v[i] == 'b' && i + 1 == v.len() {
            i = v.len();
        } else {
            out.push(v[i]);
            i = i + 1;
        }
        proof {
            assert(spec_level_ind(v@, 0) =~= out@ + spec_level_ind(v@, i as int));
        }
    }
    out
}

/// Collapse a run of level indicators before a baseline marker to the
/// baseline marker alone.
pub open spec fn spec_level_baseline(s: Seq<char>, i: int) -> Seq<char>
    decreases s.len() - i,
{
    if i < 0 || i >= s.len() {
        Seq::empty()
    } else {
        let r = arrow_run_len(s, i);
        if r > 0 && i + r < s.len() && s[i + r] == 'b' {
            seq!['b'] + spec_level_baseline(s, i + r + 1)
        } else {
            seq![s[i]] + spec_level_baseline(s, i + 1)
        }
    }
}

pub fn level_baseline_pass(v: &Vec<char>) -> (r: Vec<char>)
    ensures
        r@ == spec_level_baseline(v@, 0),
{
    let mut out: Vec<char> = Vec::new();
    let mut i: usize = 0;
    while i < v.len()
        invariant
            i <= v@.len(),
            spec_level_baseline(v@, 0) == out@ + spec_level_baseline(v@, i as int),
        decreases v@.len() - i,
    {
        let r = arrow_run(v, i);
        if r > 0 && i + r < v.len() && v[i + r] == 'b' {
            out.push('b');
            i = i + r + 1;
        } else {
            out.push(v[i]);
            i = i + 1;
        }
        proof {
            assert(spec_level_baseline(v@, 0) =~= out@ + spec_level_baseline(v@, i as int));
        }
    }
    out
}

/// Rule 38: drop a punctuation indicator at the start of a segment,
/// after whitespace, or after two letter pairs (a word).
pub open spec fn spec_punct_38(s: Seq<char>, i: int) -> Seq<char>
    decreases s.len() - i,
{
    if i < 0 || i >= s.len() {
        Seq::empty()
    } else if i == 0 && s[0] == 'P' && 1 < s.len() {
        seq![s[1]] + spec_punct_38(s, 2)
    } else if is_space_marker(s[i]) && i + 2 < s.len() && s[i + 1] == 'P' {
        seq![s[i], s[i + 2]] + spec_punct_38(s, i + 3)
    } else if (s[i] == 'L' || s[i] == 'l') && i + 5 < s.len() && (s[i + 2] == 'L' || s[i + 2]
        == 'l') && s[i + 4] == 'P' {
        s.subrange(i, i + 4) + seq![s[i + 5]] + spec_punct_38(s, i + 6)
    } else {
        seq![s[i]] + spec_punct_38(s, i + 1)
    }
}

pub fn punct_38_pass(v: &Vec<char>) -> (r: Vec<char>)
    ensures
        r@ == spec_punct_38(v@, 0),
{
    let mut out: Vec<char> = Vec::new();
    let mut i: usize = 0;
    while i < v.len()
        invariant
            i <= v@.len(),
            spec_punct_38(v@, 0) == out@ + spec_punct_38(v@, i as int),
        decreases v@.len() - i,
    {
        if i == 0 && v[0] == 'P' && v.len() >= 2 {
            out.push(v[1]);
            i = 2;
        } else if (v[i] == 'W' || v[i] == 'w') && v.len() - i >= 3 && v[i + 1] == 'P' {
            out.push(v[i]);
            out.push(v[i + 2]);
            i = i + 3;
        } else if (v[i] == 'L' || v[i] == 'l') && v.len() - i >= 6 && (v[i + 2] == 'L' || v[i + 2]
            == 'l') && v[i + 4] == 'P' {
            crate::strutil::push_range(&mut out, v, i, i + 4);
            out.push(v[i + 5]);
            i = i + 6;
        } else {
            out.push(v[i]);
            i = i + 1;
        }
        proof {
            assert(spec_punct_38(v@, 0) =~= out@ + spec_punct_38(v@, i as int));
        }
    }
    out
}

/// The letter group of the single-letter pattern: an optional capital
/// marker, then a letter pair.  Returns its length at `k`, or 0.
pub open spec fn eli_letter_len(s: Seq<char>, k: int) -> int {
    if 0 <= k && k + 2 < s.len() && s[k] == 'C' && s[k + 1] == 'L' {
        3
    } else if 0 <= k && k + 1 < s.len() && s[k] == 'L' {
        2
    } else {
        0
    }
}

/// The right context of the single-letter pattern: whitespace,
/// punctuation, comma, or the end of the stream.  -1 when absent.
pub open spec fn eli_end_len(s: Seq<char>, e: int) -> int {
    if 0 <= e && e < s.len() && (s[e] == 'W' || s[e] == 'P' || s[e] == ',') {
        1
    } else if e == s.len() {
        0
    } else {
        -1
    }
}

/// The optional close fence plus right context at `m`: lengths of the
/// close group and the end group, or None.
pub open spec fn eli_close_end(s: Seq<char>, m: int) -> Option<(int, int)> {
    if 0 <= m && m + 1 < s.len() && is_cell(s[m]) && s[m + 1] == '⠾' && eli_end_len(s, m + 2)
        >= 0 {
        Some((2int, eli_end_len(s, m + 2)))
    } else if 0 <= m && m < s.len() && s[m] == '⠾' && eli_end_len(s, m + 1) >= 0 {
        Some((1int, eli_end_len(s, m + 1)))
    } else if eli_end_len(s, m) >= 0 {
        Some((0int, eli_end_len(s, m)))
    } else {
        None
    }
}

/// Letter group, close group and right context at `k`, or None.
pub open spec fn eli_lce(s: Seq<char>, k: int) -> Option<(int, int, int)> {
    let ll = eli_letter_len(s, k);
    if ll > 0 {
        match eli_close_end(s, k + ll) {
            Some(ce) => Some((ll, ce.0, ce.1)),
            None => None,
        }
    } else {
        None
    }
}

/// Optional open fence, then letter/close/end, at `j`.
pub open spec fn eli_olce(s: Seq<char>, j: int) -> Option<(int, int, int, int)> {
    if 0 <= j && j + 1 < s.len() && is_cell(s[j]) && s[j + 1] == '⠷' && eli_lce(s, j + 2) is Some {
        match eli_lce(s, j + 2) {
            Some(t) => Some((2int, t.0, t.1, t.2)),
            None => None,
        }
    } else if 0 <= j && j < s.len() && s[j] == '⠷' && eli_lce(s, j + 1) is Some {
        match eli_lce(s, j + 1) {
            Some(t) => Some((1int, t.0, t.1, t.2)),
            None => None,
        }
    } else {
        match eli_lce(s, j) {
            Some(t) => Some((0int, t.0, t.1, t.2)),
            None => None,
        }
    }
}

/// The full single-letter match at `i`: lengths of the start, open,
/// letter, close and end groups, or None.  The left context is the
/// segment start, whitespace, a punctuation pair (with an optional
/// following cell) or a comma.
pub open spec fn eli_match(s: Seq<char>, i: int) -> Option<(int, int, int, int, int)> {
    if i == 0 && eli_olce(s, 0) is Some {
        match eli_olce(s, 0) {
            Some(t) => Some((0int, t.0, t.1, t.2, t.3)),
            None => None,
        }
    } else if 0 <= i && i < s.len() && s[i] == 'W' && eli_olce(s, i + 1) is Some {
        match eli_olce(s, i + 1) {
            Some(t) => Some((1int, t.0, t.1, t.2, t.3)),
            None => None,
        }
    } else if 0 <= i && i + 2 < s.len() && s[i] == 'P' && is_cell(s[i + 2]) && eli_olce(s, i + 3)
        is Some {
        match eli_olce(s, i + 3) {
            Some(t) => Some((3int, t.0, t.1, t.2, t.3)),
            None => None,
        }
    } else if 0 <= i && i + 1 < s.len() && s[i] == 'P' && eli_olce(s, i + 2) is Some {
        match eli_olce(s, i + 2) {
            Some(t) => Some((2int, t.0, t.1, t.2, t.3)),
            None => None,
        }
    } else if 0 <= i && i < s.len() && s[i] == ',' && eli_olce(s, i + 1) is Some {
        match eli_olce(s, i + 1) {
            Some(t) => Some((1int, t.0, t.1, t.2, t.3)),
            None => None,
        }
    } else {
        None
    }
}

/// English-letter-indicator insertion: each matched single letter gets
/// an 'E' marker inserted before its (optionally capitalised) letter
/// pair.  A one-character right context is re-examined as the left
/// context of the next match.
pub open spec fn spec_eli(s: Seq<char>, i: int) -> Seq<char>
    decreases s.len() - i,
{
    if i < 0 || i >= s.len() {
        Seq::empty()
    } else {
        match eli_match(s, i) {
            Some(m) => {
                let body = i + m.0 + m.1 + m.2 + m.3;
                let emitted = s.subrange(i, i + m.0 + m.1) + seq!['E'] + s.subrange(
                    i + m.0 + m.1,
                    body,
                );
                if m.4 == 1 {
                    emitted + spec_eli(s, body)
                } else {
                    emitted
                }
            },
            None => seq![s[i]] + spec_eli(s, i + 1),
        }
    }
}

/// Left-to-right search for the groups of the single-letter pattern,
/// mirroring the spec-level matcher.
fn eli_match_at(v: &Vec<char>, i: usize) -> (r: Option<(usize, usize, usize, usize, usize)>)
    requires
        i < v@.len(),
    ensures
        match r {
            Some(m) => {
                &&& eli_match(v@, i as int) == Some(
                    (m.0 as int, m.1 as int, m.2 as int, m.3 as int, m.4 as int),
                )
                &&& i + m.0 + m.1 + m.2 + m.3 + m.4 <= v@.len()
                &&& m.2 >= 2
            },
            None => eli_match(v@, i as int) is None,
        },
{
    let n = v.len();
    proof {
        assert(i < n);
    }
    if i == 0 {
        if let Some(t) = eli_olce_at(v, 0) {
            return Some((0, t.0, t.1, t.2, t.3));
        }
    }
    if v[i] == 'W' {
        if let Some(t) = eli_olce_at(v, i + 1) {
            return Some((1, t.0, t.1, t.2, t.3));
        }
        return None;
    }
    if v[i] == 'P' && v.len() - i >= 3 && crate::cells::is_braille_cell(v[i + 2]) {
        if let Some(t) = eli_olce_at(v, i + 3) {
            return Some((3, t.0, t.1, t.2, t.3));
        }
    }
    if v[i] == 'P' && v.len() - i >= 2 {
        if let Some(t) = eli_olce_at(v, i + 2) {
            return Some((2, t.0, t.1, t.2, t.3));
        }
        return None;
    }
    if v[i] == ',' {
        if let Some(t) = eli_olce_at(v, i + 1) {
            return Some((1, t.0, t.1, t.2, t.3));
        }
        return None;
    }
    None
}

fn eli_olce_at(v: &Vec<char>, j: usize) -> (r: Option<(usize, usize, usize, usize)>)
    requires
        j <= v@.len(),
    ensures
        match r {
            Some(t) => {
                &&& eli_olce(v@, j as int) == Some(
                    (t.0 as int, t.1 as int, t.2 as int, t.3 as int),
                )
                &&& j + t.0 + t.1 + t.2 + t.3 <= v@.len()
                &&& t.1 >= 2
            },
            None => eli_olce(v@, j as int) is None,
        },
{
    if v.len() - j >= 2 && crate::cells::is_braille_cell(v[j]) && v[j + 1] == '⠷' {
        if let Some(t) = eli_lce_at(v, j + 2) {
            return Some((2, t.0, t.1, t.2));
        }
    }
    if j < v.len() && v[j] == '⠷' {
        if let Some(t) = eli_lce_at(v, j + 1) {
            return Some((1, t.0, t.1, t.2));
        }
    }
    match eli_lce_at(v, j) {
        Some(t) => Some((0, t.0, t.1, t.2)),
        None => None,
    }
}

fn eli_lce_at(v: &Vec<char>, k: usize) -> (r: Option<(usize, usize, usize)>)
    requires
        k <= v@.len(),
    ensures
        match r {
            Some(t) => {
                &&& eli_lce(v@, k as int) == Some((t.0 as int, t.1 as int, t.2 as int))
                &&& k + t.0 + t.1 + t.2 <= v@.len()
                &&& t.0 >= 2
            },
            None => eli_lce(v@, k as int) is None,
        },
{
    let ll: usize = if v.len() - k >= 3 && v[k] == 'C' && v[k + 1] == 'L' {
        3
    } else if v.len() - k >= 2 && v[k] == 'L' {
        2
    } else {
        0
    };
    if ll == 0 {
        return None;
    }
    let m = k + ll;
    if v.len() - m >= 2 && crate::cells::is_braille_cell(v[m]) && v[m + 1] == '⠾' {
        if let Some(e) = eli_end_at(v, m + 2) {
            return Some((ll, 2, e));
        }
    }
    if m < v.len() && v[m] == '⠾' {
        if let Some(e) = eli_end_at(v, m + 1) {
            return Some((ll, 1, e));
        }
    }
    match eli_end_at(v, m) {
        Some(e) => Some((ll, 0, e)),
        None => None,
    }
}

fn eli_end_at(v: &Vec<char>, e: usize) -> (r: Option<usize>)
    requires
        e <= v@.len() + 2,
    ensures
        match r {
            Some(el) => eli_end_len(v@, e as int) == el as int && e + el <= v@.len(),
            None => eli_end_len(v@, e as int) < 0,
        },
{
    if e < v.len() && (v[e] == 'W' || v[e] == 'P' || v[e] == ',') {
        Some(1)
    } else if e == v.len() {
        Some(0)
    } else {
        None
    }
}

#[verifier::rlimit(60)]
#[verifier::spinoff_prover]
pub fn eli_pass(v: &Vec<char>) -> (r: Vec<char>)
    ensures
        r@ == spec_eli(v@, 0),
{
    let mut out: Vec<char> = Vec::new();
    let mut i: usize = 0;
    while i < v.len()
        invariant
            i <= v@.len(),
            spec_eli(v@, 0) == out@ + spec_eli(v@, i as int),
        decreases v@.len() - i,
    {
        match eli_match_at(v, i) {
            Some(m) => {
                let body = i + m.0 + m.1 + m.2 + m.3;
                crate::strutil::push_range(&mut out, v, i, i + m.0 + m.1);
                out.push('E');
                crate::strutil::push_range(&mut out, v, i + m.0 + m.1, body);
                if m.4 == 1 {
                    i = body;
                } else {
                    i = v.len();
                }
            },
            None => {
                out.push(v[i]);
                i = i + 1;
            },
        }
        proof {
            assert(spec_eli(v@, 0) =~= out@ + spec_eli(v@, i as int));
        }
    }
    out
}

/// The fixed Nemeth marker-to-cell substitution.  Characters outside the
/// marker alphabet pass through unchanged.
pub open spec fn nemeth_subst_char(c: char) -> Seq<char> {
    if c == 'S' {
        seq!['⠈', '⠰']
    } else if c == 'B' || c == 'D' || c == 'P' || c == '𝐏' {
        seq!['⠸']
    } else if c == '𝔹' || c == 'T' {
        seq!['⠈']
    } else if c == 'I' || c == 'G' {
        seq!['⠨']
    } else if c == 'R' || c == 'L' || c == 'l' || c == 'M' || c == 'N' || c == '𝑁' {
        Seq::empty()
    } else if c == 'E' || c == '↓' {
        seq!['⠰']
    } else if c == 'V' {
        seq!['⠨', '⠈']
    } else if c == 'H' {
        seq!['⠠', '⠠']
    } else if c == 'U' {
        seq!['⠈', '⠈']
    } else if c == 'C' {
        seq!['⠠']
    } else if c == 'm' || c == 'b' {
        seq!['⠐']
    } else if c == 'n' {
        seq!['⠼']
    } else if c == 'W' || c == 'w' {
        seq!['⠀']
    } else if c == ',' {
        seq!['⠠', '⠀']
    } else if c == '↑' {
        seq!['⠘']
    } else {
        seq![c]
    }
}

pub open spec fn spec_nemeth_subst(s: Seq<char>, i: int) -> Seq<char>
    decreases s.len() - i,
{
    if i < 0 || i >= s.len() {
        Seq::empty()
    } else {
        nemeth_subst_char(s[i]) + spec_nemeth_subst(s, i + 1)
    }
}

/// Append the substitution of one marker.
fn push_nemeth_subst(out: &mut Vec<char>, c: char)
    ensures
        final(out)@ == old(out)@ + nemeth_subst_char(c),
{
    if c == 'S' {
        out.push('⠈');
        out.push('⠰');
    } else if c == 'B' || c == 'D' || c == 'P' || c == '𝐏' {
        out.push('⠸');
    } else if c == '𝔹' || c == 'T' {
        out.push('⠈');
    } else if c == 'I' || c == 'G' {
        out.push('⠨');
    } else if c == 'R' || c == 'L' || c == 'l' || c == 'M' || c == 'N' || c == '𝑁' {
    } else if c == 'E' || c == '↓' {
        out.push('⠰');
    } else if c == 'V' {
        out.push('⠨');
        out.push('⠈');
    } else if c == 'H' {
        out.push('⠠');
        out.push('⠠');
    } else if c == 'U' {
        out.push('⠈');
        out.push('⠈');
    } else if c == 'C' {
        out.push('⠠');
    } else if c == 'm' || c == 'b' {
        out.push('⠐');
    } else if c == 'n' {
        out.push('⠼');
    } else if c == 'W' || c == 'w' {
        out.push('⠀');
    } else if c == ',' {
        out.push('⠠');
        out.push('⠀');
    } else if c == '↑' {
        out.push('⠘');
    } else {
        out.push(c);
    }
    proof {
        assert(out@ =~= old(out)@ + nemeth_subst_char(c));
    }
}

pub fn nemeth_subst_pass(v: &Vec<char>) -> (r: Vec<char>)
    ensures
        r@ == spec_nemeth_subst(v@, 0),
{
    let mut out: Vec<char> = Vec::new();
    let mut i: usize = 0;
    while i < v.len()
        invariant
            i <= v@.len(),
            spec_nemeth_subst(v@, 0) == out@ + spec_nemeth_subst(v@, i as int),
        decreases v@.len() - i,
    {
        push_nemeth_subst(&mut out, v[i]);
        i = i + 1;
        proof {
            assert(spec_nemeth_subst(v@, 0) =~= out@ + spec_nemeth_subst(v@, i as int));
        }
    }
    out
}

/// Index of the first character that is not a braille space, scanning
/// from `i`.
pub open spec fn skip_spaces_from(s: Seq<char>, i: int) -> int
    decreases s.len() - i,
{
    if 0 <= i && i < s.len() && s[i] == '⠀' {
        skip_spaces_from(s, i + 1)
    } else {
        i
    }
}

/// One past the last character that is not a braille space, scanning
/// down from `j`.
pub open spec fn skip_spaces_down(s: Seq<char>, j: int) -> int
    decreases j,
{
    if 0 < j && j <= s.len() && s[j - 1] == '⠀' {
        skip_spaces_down(s, j - 1)
    } else {
        j
    }
}

/// Leading and trailing braille spaces removed.
pub open spec fn spec_trim_spaces(s: Seq<char>) -> Seq<char> {
    let a = skip_spaces_from(s, 0);
    if a == s.len() {
        Seq::empty()
    } else {
        s.subrange(a, skip_spaces_down(s, s.len() as int))
    }
}

pub fn trim_spaces_pass(v: &Vec<char>) -> (r: Vec<char>)
    ensures
        r@ == spec_trim_spaces(v@),
{
    let mut a: usize = 0;
    while a < v.len() && v[a] == '⠀'
        invariant
            a <= v@.len(),
            skip_spaces_from(v@, 0) == skip_spaces_from(v@, a as int),
        decreases v@.len() - a,
    {
        a = a + 1;
    }
    if a == v.len() {
        let out: Vec<char> = Vec::new();
        return out;
    }
    let mut b: usize = v.len();
    while b > 0 && v[b - 1] == '⠀'
        invariant
            b <= v@.len(),
            skip_spaces_down(v@, v@.len() as int) == skip_spaces_down(v@, b as int),
        decreases b,
    {
        b = b - 1;
    }
    proof {
        assert(skip_spaces_from(v@, a as int) == a as int);
        assert(skip_spaces_down(v@, b as int) == b as int);
        assert(a < v@.len() && v@[a as int] != '⠀');
        assert(a as int <= skip_spaces_down(v@, v@.len() as int)) by {
            lemma_skip_spaces_down_ge(v@, v@.len() as int, a as int);
        }
    }
    let mut out: Vec<char> = Vec::new();
    crate::strutil::push_range(&mut out, v, a, b);
    proof {
        assert(out@ =~= spec_trim_spaces(v@));
    }
    out
}

/// The end-trim never moves past a non-space character.
pub proof fn lemma_skip_spaces_down_ge(s: Seq<char>, j: int, a: int)
    requires
        0 <= a < j <= s.len(),
        s[a] != '⠀',
    ensures
        skip_spaces_down(s, j) > a,
    decreases j,
{
    if j - 1 > a && s[j - 1] == '⠀' {
        lemma_skip_spaces_down_ge(s, j - 1, a);
    }
}

/// Collapse every run of braille spaces to a single space.
pub open spec fn spec_collapse_spaces(s: Seq<char>, i: int) -> Seq<char>
    decreases s.len() - i,
{
    if i < 0 || i >= s.len() {
        Seq::empty()
    } else if s[i] == '⠀' && i + 1 < s.len() && s[i + 1] == '⠀' {
        spec_collapse_spaces(s, i + 1)
    } else {
        seq![s[i]] + spec_collapse_spaces(s, i + 1)
    }
}

pub fn collapse_spaces_pass(v: &Vec<char>) -> (r: Vec<char>)
    ensures
        r@ == spec_collapse_spaces(v@, 0),
{
    let mut out: Vec<char> = Vec::new();
    let mut i: usize = 0;
    while i < v.len()
        invariant
            i <= v@.len(),
            spec_collapse_spaces(v@, 0) == out@ + spec_collapse_spaces(v@, i as int),
        decreases v@.len() - i,
    {
        if v[i] == '⠀' && i + 1 < v.len() && v[i + 1] == '⠀' {
        } else {
            out.push(v[i]);
        }
        i = i + 1;
        proof {
            assert(spec_collapse_spaces(v@, 0) =~= out@ + spec_collapse_spaces(v@, i as int));
        }
    }
    out
}

/// The whole Nemeth cleanup pipeline over a character sequence.
pub open spec fn spec_nemeth_cleanup(s: Seq<char>) -> Seq<char> {
    let s1 = spec_eli(s, 0);
    let s2 = spec_enclosed_list(s1, 0);
    let s3 = spec_space_before_ind(s2, 0);
    let s4 = spec_space_after_ind(s3, 0);
    let s5 = spec_space_before_punct(s4, 0);
    let s6 = spec_space_after_punct(s5, 0);
    let s7 = spec_lone_decimal(s6, 0);
    let s8 = spec_double_space(s7, 0);
    let s9 = spec_multi_177_2(s8, 0);
    let s10 = spec_multi_177_3(s9, 0);
    let s11 = spec_multi_177_5(s10, 0);
    let s12 = spec_num_ind_9a(s11, 0);
    let s13 = spec_num_ind_9c(s12, 0);
    let s14 = spec_num_ind_9d(s13, 0);
    let s15 = spec_num_ind_9e(s14);
    let s16 = spec_num_ind_9e_shape(s15);
    let s17 = spec_num_ind_9f(s16);
    let s18 = spec_num_ind_9b(s17, 0);
    let s19 = spec_level_ind(s18, 0);
    let s20 = spec_level_baseline(s19, 0);
    let s21 = spec_punct_38(s20, 0);
    let s22 = spec_nemeth_subst(s21, 0);
    let s23 = spec_trim_spaces(s22);
    spec_collapse_spaces(s23, 0)
}

/// Nemeth cleanup: insert English-letter and numeric indicators, place
/// multipurpose indicators, drop spurious spaces and level indicators,
/// substitute every marker by its Nemeth cells, and normalize spaces.
pub fn nemeth_cleanup(raw: &str) -> (r: String)
    ensures
        r@ == spec_nemeth_cleanup(raw@),
{
    let v = crate::strutil::to_chars(raw);
    let v = eli_pass(&v);
    let v = enclosed_list_pass(&v);
    let v = space_before_ind_pass(&v);
    let v = space_after_ind_pass(&v);
    let v = space_before_punct_pass(&v);
    let v = space_after_punct_pass(&v);
    let v = lone_decimal_pass(&v);
    let v = double_space_pass(&v);
    let v = multi_177_2_pass(&v);
    let v = multi_177_3_pass(&v);
    let v = multi_177_5_pass(&v);
    let v = num_ind_9a_pass(&v);
    let v = num_ind_9c_pass(&v);
    let v = num_ind_9d_pass(&v);
    let v = num_ind_9e_pass(&v);
    let v = num_ind_9e_shape_pass(&v);
    let v = num_ind_9f_pass(&v);
    let v = num_ind_9b_pass(&v);
    let v = level_ind_pass(&v);
    let v = level_baseline_pass(&v);
    let v = punct_38_pass(&v);
    let v = nemeth_subst_pass(&v);
    let v = trim_spaces_pass(&v);
    let v = collapse_spaces_pass(&v);
    crate::strutil::from_chars(&v)
}

} // verus!
