//! UEB cleanup: typeface and capital word-mode conversion, per-segment
//! mode selection, the grade-1/2/numeric mode reducer with standing-alone
//! detection, shortforms and contractions, and the final marker
//! substitution.

use vstd::prelude::*;

use crate::cells::{is_cell, is_letter_number_cell, spec_unhighlight};

verus! {

/// Markers that may stand between a letter prefix and its letter.
pub open spec fn is_letter_prefix(c: char) -> bool {
    c == 'B' || c == 'I' || c == '𝔹' || c == 'S' || c == 'T' || c == 'D' || c == 'C' || c == '𝐶'
        || c == '𝑐'
}

pub fn letter_prefix(c: char) -> (r: bool)
    ensures
        r == is_letter_prefix(c),
{
    c == 'B' || c == 'I' || c == '𝔹' || c == 'S' || c == 'T' || c == 'D' || c == 'C' || c == '𝐶'
        || c == '𝑐'
}

/// A typeface marker subject to word-mode conversion.
pub open spec fn is_typeface(c: char) -> bool {
    c == 'B' || c == 'I' || c == '𝔹' || c == 'S' || c == 'T' || c == 'D'
}

pub fn typeface(c: char) -> (r: bool)
    ensures
        r == is_typeface(c),
{
    c == 'B' || c == 'I' || c == '𝔹' || c == 'S' || c == 'T' || c == 'D'
}

/// Whitespace, hyphen or dash: the characters that end a symbol sequence.
pub open spec fn is_seg_break(c: char) -> bool {
    c == 'W' || c == '𝐖' || c == '-' || c == '—' || c == '―'
}

pub fn seg_break(c: char) -> (r: bool)
    ensures
        r == is_seg_break(c),
{
    c == 'W' || c == '𝐖' || c == '-' || c == '—' || c == '―'
}

/// The indicators that may intervene on the left of a standing-alone
/// letter sequence.
pub open spec fn is_left_intervening(c: char) -> bool {
    c == 'B' || c == 'I' || c == '𝔹' || c == 'S' || c == 'T' || c == 'D' || c == 'C' || c == '𝐶'
        || c == 's' || c == 'w'
}

pub fn left_intervening(c: char) -> (r: bool)
    ensures
        r == is_left_intervening(c),
{
    c == 'B' || c == 'I' || c == '𝔹' || c == 'S' || c == 'T' || c == 'D' || c == 'C' || c == '𝐶'
        || c == 's' || c == 'w'
}

/// The indicators that may intervene on the right; the typeface and
/// capital terminator joins the left set.
pub open spec fn is_right_intervening(c: char) -> bool {
    is_left_intervening(c) || c == 'e'
}

pub fn right_intervening(c: char) -> (r: bool)
    ensures
        r == is_right_intervening(c),
{
    left_intervening(c) || c == 'e'
}

/// The first position at or after `j` holding a letter or number marker,
/// or the length of the stream when there is none.
pub open spec fn first_pair_from(s: Seq<char>, j: int) -> int
    decreases s.len() - j,
{
    if j < 0 || j >= s.len() {
        s.len() as int
    } else if s[j] == 'L' || s[j] == 'N' {
        j
    } else {
        first_pair_from(s, j + 1)
    }
}

/// Scan the prefix markers after a letter/number pair for `target`;
/// a letter/number marker or a non-prefix character ends the scan.
pub open spec fn scan_prefixes(s: Seq<char>, q: int, target: char) -> Option<int>
    decreases s.len() - q,
{
    if q < 0 || q >= s.len() {
        None
    } else if s[q] == 'L' || s[q] == 'N' || !is_letter_prefix(s[q]) {
        None
    } else if s[q] == target {
        Some(q)
    } else {
        scan_prefixes(s, q + 1, target)
    }
}

/// Look for `target` among the prefix markers attached to the letter or
/// number pair that follows position `from`.
pub open spec fn spec_find_next(s: Seq<char>, from: int, target: char) -> Option<int> {
    let p = first_pair_from(s, from);
    if p == s.len() {
        None
    } else {
        scan_prefixes(s, p + 2, target)
    }
}

/// Every position returned lies within the stream, past `from`.
pub proof fn lemma_scan_prefixes_bounds(s: Seq<char>, q: int, target: char)
    requires
        0 <= q,
    ensures
        match scan_prefixes(s, q, target) {
            Some(r) => q <= r < s.len(),
            None => true,
        },
    decreases s.len() - q,
{
    if q < s.len() && !(s[q] == 'L' || s[q] == 'N' || !is_letter_prefix(s[q])) && s[q] != target {
        lemma_scan_prefixes_bounds(s, q + 1, target);
    }
}

pub proof fn lemma_find_next_bounds(s: Seq<char>, from: int, target: char)
    requires
        0 <= from <= s.len(),
    ensures
        match spec_find_next(s, from, target) {
            Some(r) => from + 2 <= r < s.len(),
            None => true,
        },
    decreases s.len() - from,
{
    let p = first_pair_from(s, from);
    lemma_first_pair_bounds(s, from);
    if p < s.len() {
        lemma_scan_prefixes_bounds(s, p + 2, target);
    }
}

pub proof fn lemma_first_pair_bounds(s: Seq<char>, j: int)
    requires
        0 <= j <= s.len(),
    ensures
        j <= first_pair_from(s, j) <= s.len(),
    decreases s.len() - j,
{
    if j < s.len() && !(s[j] == 'L' || s[j] == 'N') {
        lemma_first_pair_bounds(s, j + 1);
    }
}

pub fn find_next(v: &Vec<char>, from: usize, target: char) -> (r: Option<usize>)
    requires
        from <= v@.len(),
    ensures
        match r {
            Some(q) => spec_find_next(v@, from as int, target) == Some(q as int) && from + 2 <= q
                < v@.len(),
            None => spec_find_next(v@, from as int, target) is None,
        },
{
    proof {
        lemma_find_next_bounds(v@, from as int, target);
    }
    let mut p = from;
    while p < v.len() && !(v[p] == 'L' || v[p] == 'N')
        invariant
            from <= p <= v@.len(),
            first_pair_from(v@, from as int) == first_pair_from(v@, p as int),
        decreases v@.len() - p,
    {
        p = p + 1;
    }
    if p == v.len() {
        return None;
    }
    if v.len() - p <= 2 {
        return None;
    }
    proof {
        assert(first_pair_from(v@, p as int) == p as int);
    }
    let mut q = p + 2;
    while q < v.len()
        invariant
            from <= p && p + 2 <= q <= v@.len(),
            p < v@.len() && (v@[p as int] == 'L' || v@[p as int] == 'N'),
            first_pair_from(v@, from as int) == p as int,
            scan_prefixes(v@, p as int + 2, target) == scan_prefixes(v@, q as int, target),
        decreases v@.len() - q,
    {
        if v[q] == 'L' || v[q] == 'N' || !letter_prefix(v[q]) {
            return None;
        }
        if v[q] == target {
            return Some(q);
        }
        q = q + 1;
    }
    None
}

/// The word-mode terminators for the still-open typeface markers, in
/// the order they were opened.
pub open spec fn ends_from(wme: Seq<char>, k: int) -> Seq<char>
    decreases wme.len() - k,
{
    if k < 0 || k >= wme.len() {
        Seq::empty()
    } else {
        seq![wme[k], 'e'] + ends_from(wme, k + 1)
    }
}

/// The sequence with every occurrence of `c` removed.
pub open spec fn remove_char(s: Seq<char>, c: char, k: int) -> Seq<char>
    decreases s.len() - k,
{
    if k < 0 || k >= s.len() {
        Seq::empty()
    } else if s[k] == c {
        remove_char(s, c, k + 1)
    } else {
        seq![s[k]] + remove_char(s, c, k + 1)
    }
}

fn vec_contains(v: &Vec<char>, c: char) -> (r: bool)
    ensures
        r == v@.contains(c),
{
    let mut k: usize = 0;
    while k < v.len()
        invariant
            k <= v@.len(),
            forall|j: int| 0 <= j < k ==> v@[j] != c,
        decreases v@.len() - k,
    {
        if v[k] == c {
            return true;
        }
        k = k + 1;
    }
    false
}

pub fn vec_remove_char(v: &Vec<char>, c: char) -> (r: Vec<char>)
    ensures
        r@ == remove_char(v@, c, 0),
{
    let mut out: Vec<char> = Vec::new();
    let mut k: usize = 0;
    while k < v.len()
        invariant
            k <= v@.len(),
            remove_char(v@, c, 0) == out@ + remove_char(v@, c, k as int),
        decreases v@.len() - k,
    {
        if v[k] == c {
        } else {
            out.push(v[k]);
        }
        k = k + 1;
        proof {
            assert(remove_char(v@, c, 0) =~= out@ + remove_char(v@, c, k as int));
        }
    }
    out
}

fn push_ends(out: &mut Vec<char>, wme: &Vec<char>)
    ensures
        final(out)@ == old(out)@ + ends_from(wme@, 0),
{
    let ghost start = out@;
    let mut k: usize = 0;
    while k < wme.len()
        invariant
            k <= wme@.len(),
            start + ends_from(wme@, 0) == out@ + ends_from(wme@, k as int),
        decreases wme@.len() - k,
    {
        out.push(wme[k]);
        out.push('e');
        k = k + 1;
        proof {
            assert(start + ends_from(wme@, 0) =~= out@ + ends_from(wme@, k as int));
        }
    }
}

/// Typeface-to-word-mode conversion.  A typeface marker whose mate
/// reappears on a later letter gets a word indicator 'w' and opens word
/// mode; a lone one gets the single-symbol indicator 's'.  Open word
/// modes are closed with terminators after the last pair, unless
/// whitespace follows.
pub open spec fn spec_typeface(s: Seq<char>, i: int, wm: Seq<char>, wme: Seq<char>) -> Seq<char>
    decreases s.len() - i,
{
    if i < 0 || i >= s.len() {
        Seq::empty()
    } else {
        let ch = s[i];
        if is_typeface(ch) {
            let nxt = spec_find_next(s, i + 1, ch);
            if wm.contains(ch) {
                if nxt is None {
                    spec_typeface(s, i + 1, remove_char(wm, ch, 0), wme.push(ch))
                } else {
                    spec_typeface(s, i + 1, wm, wme)
                }
            } else {
                if nxt is Some {
                    seq![ch, 'w'] + spec_typeface(s, i + 1, wm.push(ch), wme)
                } else {
                    seq![ch, 's'] + spec_typeface(s, i + 1, wm, wme)
                }
            }
        } else if (ch == 'L' || ch == 'N') && i + 1 < s.len() {
            let pair = seq![ch, s[i + 1]];
            if wme.len() > 0 && i + 2 < s.len() && s[i + 2] != 'W' && s[i + 2] != '𝐖' {
                pair + ends_from(wme, 0) + spec_typeface(s, i + 2, wm, Seq::empty())
            } else {
                pair + spec_typeface(s, i + 2, wm, wme)
            }
        } else {
            seq![ch] + spec_typeface(s, i + 1, wm, wme)
        }
    }
}

pub fn typeface_to_word_mode(v: &Vec<char>) -> (r: Vec<char>)
    ensures
        r@ == spec_typeface(v@, 0, Seq::empty(), Seq::empty()),
{
    let mut out: Vec<char> = Vec::new();
    let mut wm: Vec<char> = Vec::new();
    let mut wme: Vec<char> = Vec::new();
    let mut i: usize = 0;
    while i < v.len()
        invariant
            i <= v@.len(),
            spec_typeface(v@, 0, Seq::empty(), Seq::empty()) == out@ + spec_typeface(
                v@,
                i as int,
                wm@,
                wme@,
            ),
        decreases v@.len() - i,
    {
        let ch = v[i];
        if typeface(ch) {
            let nxt = find_next(v, i + 1, ch);
            if vec_contains(&wm, ch) {
                if nxt.is_none() {
                    wm = vec_remove_char(&wm, ch);
                    wme.push(ch);
                }
            } else {
                if nxt.is_some() {
                    out.push(ch);
                    out.push('w');
                    wm.push(ch);
                } else {
                    out.push(ch);
                    out.push('s');
                }
            }
            i = i + 1;
        } else if (ch == 'L' || ch == 'N') && i + 1 < v.len() {
            out.push(ch);
            out.push(v[i + 1]);
            if wme.len() > 0 && i + 2 < v.len() && v[i + 2] != 'W' && v[i + 2] != '𝐖' {
                push_ends(&mut out, &wme);
                wme = Vec::new();
            }
            i = i + 2;
        } else {
            out.push(ch);
            i = i + 1;
        }
        proof {
            assert(spec_typeface(v@, 0, Seq::empty(), Seq::empty()) =~= out@ + spec_typeface(
                v@,
                i as int,
                wm@,
                wme@,
            ));
        }
    }
    out
}

/// The first position at or after `j` holding exactly `c`, or the length
/// of the stream.
pub open spec fn first_char_from(s: Seq<char>, j: int, c: char) -> int
    decreases s.len() - j,
{
    if j < 0 || j >= s.len() {
        s.len() as int
    } else if s[j] == c {
        j
    } else {
        first_char_from(s, j + 1, c)
    }
}

pub proof fn lemma_first_char_bounds(s: Seq<char>, j: int, c: char)
    requires
        0 <= j <= s.len(),
    ensures
        j <= first_char_from(s, j, c) <= s.len(),
    decreases s.len() - j,
{
    if j < s.len() && s[j] != c {
        lemma_first_char_bounds(s, j + 1, c);
    }
}

/// Scan past a grade-1 marker for one of the section-12 modifier cell
/// patterns; any letter/number marker or non-prefix character ends the
/// scan without a match.
pub open spec fn sec12_scan(s: Seq<char>, q: int) -> bool
    decreases s.len() - q,
{
    if q < 0 || q >= s.len() {
        false
    } else if s[q] == '1' {
        (q + 1 < s.len() && s[q + 1] == '⠱') || (q + 2 < s.len() && ((s[q + 1] == '⠘' && (s[q + 2]
            == '⠱' || s[q + 2] == '⠲')) || (s[q + 1] == '⠸' && s[q + 2] == '⠱') || (s[q + 1]
            == '⠐' && s[q + 2] == '⠱'))) || (q + 3 < s.len() && s[q + 1] == '⠨' && s[q + 2]
            == '⠸' && s[q + 3] == '⠱')
    } else if s[q] == 'L' || s[q] == 'N' || !is_letter_prefix(s[q]) {
        false
    } else {
        sec12_scan(s, q + 1)
    }
}

/// Does the next capitalised letter carry a section-12 modifier?  Such a
/// capital must stay per-symbol rather than open a capital word.
pub open spec fn spec_sec12(s: Seq<char>, start: int) -> bool {
    let c0 = first_char_from(s, start, 'C');
    if c0 == s.len() {
        false
    } else {
        let l0 = first_char_from(s, c0 + 1, 'L');
        if l0 == s.len() {
            false
        } else {
            sec12_scan(s, l0 + 2)
        }
    }
}

fn sec12_at(v: &Vec<char>, start: usize) -> (r: bool)
    requires
        start <= v@.len(),
    ensures
        r == spec_sec12(v@, start as int),
{
    let mut c0 = start;
    while c0 < v.len() && v[c0] != 'C'
        invariant
            start <= c0 <= v@.len(),
            first_char_from(v@, start as int, 'C') == first_char_from(v@, c0 as int, 'C'),
        decreases v@.len() - c0,
    {
        c0 = c0 + 1;
    }
    if c0 == v.len() {
        return false;
    }
    proof {
        assert(first_char_from(v@, start as int, 'C') == c0 as int);
    }
    let mut l0 = c0 + 1;
    while l0 < v.len() && v[l0] != 'L'
        invariant
            c0 + 1 <= l0 <= v@.len(),
            first_char_from(v@, c0 as int + 1, 'L') == first_char_from(v@, l0 as int, 'L'),
        decreases v@.len() - l0,
    {
        l0 = l0 + 1;
    }
    if l0 == v.len() {
        return false;
    }
    proof {
        assert(first_char_from(v@, c0 as int + 1, 'L') == l0 as int);
    }
    if v.len() - l0 <= 2 {
        proof {
            assert(sec12_scan(v@, l0 as int + 2) == false);
        }
        return false;
    }
    let mut q = l0 + 2;
    while q < v.len()
        invariant
            start <= c0 && c0 < v@.len() && v@[c0 as int] == 'C',
            first_char_from(v@, start as int, 'C') == c0 as int,
            c0 + 1 <= l0 && l0 < v@.len() && v@[l0 as int] == 'L',
            first_char_from(v@, c0 as int + 1, 'L') == l0 as int,
            l0 + 2 <= q <= v@.len(),
            sec12_scan(v@, l0 as int + 2) == sec12_scan(v@, q as int),
        decreases v@.len() - q,
    {
        if v[q] == '1' {
            let hit = (q + 1 < v.len() && v[q + 1] == '⠱') || (v.len() - q >= 3 && ((v[q + 1]
                == '⠘' && (v[q + 2] == '⠱' || v[q + 2] == '⠲')) || (v[q + 1] == '⠸' && v[q + 2]
                == '⠱') || (v[q + 1] == '⠐' && v[q + 2] == '⠱'))) || (v.len() - q >= 4 && v[q + 1]
                == '⠨' && v[q + 2] == '⠸' && v[q + 3] == '⠱');
            return hit;
        }
        if v[q] == 'L' || v[q] == 'N' || !letter_prefix(v[q]) {
            return false;
        }
        q = q + 1;
    }
    false
}

/// Skip over the continuation pairs of a multi-cell capital letter.
pub open spec fn cc_skip(s: Seq<char>, from: int) -> int
    decreases s.len() - from,
    via cc_skip_decreases
{
    if from < 0 || from > s.len() {
        from
    } else {
        match spec_find_next(s, from, '𝑐') {
            Some(q) => cc_skip(s, q + 1),
            None => from,
        }
    }
}

#[via_fn]
proof fn cc_skip_decreases(s: Seq<char>, from: int) {
    if 0 <= from && from <= s.len() {
        lemma_find_next_bounds(s, from, '𝑐');
    }
}

pub proof fn lemma_cc_skip_bounds(s: Seq<char>, from: int)
    requires
        0 <= from <= s.len(),
    ensures
        from <= cc_skip(s, from) <= s.len(),
    decreases s.len() - from,
{
    lemma_find_next_bounds(s, from, '𝑐');
    match spec_find_next(s, from, '𝑐') {
        Some(q) => {
            lemma_cc_skip_bounds(s, q + 1);
        },
        None => {},
    }
}

fn cc_skip_at(v: &Vec<char>, from: usize) -> (r: usize)
    requires
        from <= v@.len(),
    ensures
        r as int == cc_skip(v@, from as int),
        from <= r <= v@.len(),
{
    let mut j = from;
    loop
        invariant
            from <= j <= v@.len(),
            cc_skip(v@, from as int) == cc_skip(v@, j as int),
        decreases v@.len() - j,
    {
        match find_next(v, j, '𝑐') {
            Some(q) => {
                let n = v.len();
                proof {
                    assert(q < n);
                }
                j = q + 1;
            },
            None => {
                proof {
                    assert(cc_skip(v@, j as int) == j as int);
                }
                return j;
            },
        }
    }
}

/// Capitals-to-word-mode conversion.  Two or more consecutive capital
/// letters become a capital word (one extra 'C', later markers elided,
/// 'e' before the next lowercase letter), except when the letter that
/// follows carries a section-12 modifier.
pub open spec fn spec_capitals(s: Seq<char>, i: int, word: bool) -> Seq<char>
    decreases s.len() - i,
    via capitals_decreases
{
    if i < 0 || i >= s.len() {
        Seq::empty()
    } else {
        let ch = s[i];
        if ch == 'C' {
            let nnc = cc_skip(s, i + 1);
            if nnc >= s.len() {
                seq!['C'] + spec_capitals(s, i + 1, word)
            } else {
                let has_c = spec_find_next(s, nnc, 'C') is Some;
                if has_c && spec_sec12(s, nnc + 1) {
                    s.subrange(i, nnc) + spec_capitals(s, nnc, false)
                } else {
                    let emit_c: Seq<char> = if has_c && !word {
                        seq!['C']
                    } else {
                        Seq::empty()
                    };
                    let start_emit: int = if word {
                        i + 1
                    } else {
                        i
                    };
                    let nnc2: int = if s[nnc] == 'G' {
                        nnc + 1
                    } else {
                        nnc
                    };
                    let new_word: bool = if has_c {
                        true
                    } else {
                        word
                    };
                    if nnc2 + 2 > s.len() {
                        emit_c + s.subrange(start_emit, s.len() as int)
                    } else {
                        emit_c + s.subrange(start_emit, nnc2 + 2) + spec_capitals(
                            s,
                            nnc2 + 2,
                            new_word,
                        )
                    }
                }
            }
        } else if ch == 'L' {
            let term: Seq<char> = if word {
                seq!['e']
            } else {
                Seq::empty()
            };
            if i + 1 < s.len() {
                term + seq!['L', s[i + 1]] + spec_capitals(s, i + 2, false)
            } else {
                term + seq!['L'] + spec_capitals(s, i + 1, false)
            }
        } else {
            seq![ch] + spec_capitals(s, i + 1, false)
        }
    }
}

#[via_fn]
proof fn capitals_decreases(s: Seq<char>, i: int, word: bool) {
    if 0 <= i && i < s.len() && s[i] == 'C' {
        lemma_cc_skip_bounds(s, i + 1);
    }
}

#[verifier::rlimit(100)]
#[verifier::spinoff_prover]
pub fn capitals_to_word_mode(v: &Vec<char>) -> (r: Vec<char>)
    ensures
        r@ == spec_capitals(v@, 0, false),
{
    let mut out: Vec<char> = Vec::new();
    let mut word = false;
    let mut i: usize = 0;
    while i < v.len()
        invariant
            i <= v@.len(),
            spec_capitals(v@, 0, false) == out@ + spec_capitals(v@, i as int, word),
        decreases v@.len() - i,
    {
        let ch = v[i];
        if ch == 'C' {
            let nnc = cc_skip_at(v, i + 1);
            if nnc >= v.len() {
                out.push('C');
                i = i + 1;
            } else {
                let has_c = find_next(v, nnc, 'C').is_some();
                if has_c && sec12_at(v, nnc + 1) {
                    crate::strutil::push_range(&mut out, v, i, nnc);
                    i = nnc;
                    word = false;
                } else {
                    if has_c && !word {
                        out.push('C');
                    }
                    let start_emit = if word {
                        i + 1
                    } else {
                        i
                    };
                    let nnc2 = if v[nnc] == 'G' {
                        nnc + 1
                    } else {
                        nnc
                    };
                    if has_c {
                        word = true;
                    }
                    if v.len() - nnc2 < 2 {
                        crate::strutil::push_range(&mut out, v, start_emit, v.len());
                        i = v.len();
                    } else {
                        crate::strutil::push_range(&mut out, v, start_emit, nnc2 + 2);
                        i = nnc2 + 2;
                    }
                }
            }
        } else if ch == 'L' {
            if word {
                out.push('e');
                word = false;
            }
            if i + 1 < v.len() {
                out.push('L');
                out.push(v[i + 1]);
                i = i + 2;
            } else {
                out.push('L');
                i = i + 1;
            }
        } else {
            word = false;
            out.push(ch);
            i = i + 1;
        }
        proof {
            assert(spec_capitals(v@, 0, false) =~= out@ + spec_capitals(v@, i as int, word));
        }
    }
    out
}

/// The left side of the standing-alone test: scanning backward from `j`,
/// a letter pair or an open flag pair may be skipped, indicators may
/// intervene, and the scan must end at whitespace, hyphen, dash or the
/// segment start.
pub open spec fn left_alone(s: Seq<char>, j: int, iv: bool) -> bool
    decreases j,
{
    if j <= 0 {
        true
    } else {
        let ch = s[j - 1];
        let prev: char = if j >= 2 {
            s[j - 2]
        } else {
            ' '
        };
        if (!iv && prev == 'L') || prev == 'o' || prev == 'b' {
            left_alone(s, j - 2, true)
        } else if is_left_intervening(ch) {
            left_alone(s, j - 1, true)
        } else {
            is_seg_break(ch)
        }
    }
}

/// The right side of the standing-alone test: (whether it stands alone,
/// the number of letters, the position where the scan stopped).
pub open spec fn right_alone(s: Seq<char>, q: int, iv: bool, nl: int) -> (bool, int, int)
    decreases s.len() + 2 - q,
{
    if q >= s.len() {
        (true, nl, s.len() as int)
    } else if q < 0 {
        (false, nl, 0int)
    } else {
        let ch = s[q];
        if !iv && ch == 'L' {
            right_alone(s, q + 2, iv, nl + 1)
        } else if ch == 'c' || ch == 'b' {
            right_alone(s, q + 2, iv, nl)
        } else if is_right_intervening(ch) {
            right_alone(s, q + 1, true, nl)
        } else {
            (is_seg_break(ch), nl, q)
        }
    }
}

/// Standing-alone test (RUEB 2.6) for the letter pair at `i`: returns
/// (standing alone, end of the right-matched run, number of letters).
/// A solitary a, i or o is exempt: those keep grade-2 meanings.
pub open spec fn spec_stands_alone(s: Seq<char>, i: int) -> (bool, int, int) {
    if !left_alone(s, i, false) {
        (false, i + 2, 0int)
    } else {
        let r = right_alone(s, i + 2, false, 1);
        let alone = if r.0 && r.1 == 1 && i + 1 < s.len() && (s[i + 1] == '⠁' || s[i + 1] == '⠊'
            || s[i + 1] == '⠕') {
            false
        } else {
            r.0
        };
        (alone, r.2, r.1)
    }
}

fn left_alone_at(v: &Vec<char>, i: usize) -> (r: bool)
    requires
        i <= v@.len(),
    ensures
        r == left_alone(v@, i as int, false),
{
    let mut j = i;
    let mut iv = false;
    loop
        invariant
            j <= v@.len(),
            left_alone(v@, i as int, false) == left_alone(v@, j as int, iv),
        decreases j,
    {
        if j == 0 {
            return true;
        }
        let ch = v[j - 1];
        let prev: char = if j >= 2 {
            v[j - 2]
        } else {
            ' '
        };
        if (!iv && prev == 'L') || prev == 'o' || prev == 'b' {
            j = j - 2;
            iv = true;
        } else if left_intervening(ch) {
            j = j - 1;
            iv = true;
        } else {
            return seg_break(ch);
        }
    }
}

fn right_alone_at(v: &Vec<char>, start: usize) -> (r: (bool, usize, usize))
    requires
        start <= v@.len(),
    ensures
        right_alone(v@, start as int, false, 1) == (r.0, r.1 as int, r.2 as int),
        start <= r.2 <= v@.len(),
    // (alone, n_letters, stop position)

{
    let n = v.len();
    let mut q = start;
    let mut iv = false;
    let mut nl: usize = 1;
    loop
        invariant
            q <= n == v@.len(),
            start <= q,
            nl >= 1,
            2 * nl <= q - start + 2,
            right_alone(v@, start as int, false, 1) == right_alone(v@, q as int, iv, nl as int),
        decreases v@.len() - q,
    {
        if q >= n {
            return (true, nl, n);
        }
        let ch = v[q];
        if !iv && ch == 'L' {
            if n - q < 2 {
                proof {
                    assert(right_alone(v@, q as int + 2, iv, nl as int + 1) == (
                    true,
                    nl as int + 1,
                    v@.len() as int,
                    ));
                    assert(right_alone(v@, q as int, iv, nl as int) == (
                    true,
                    nl as int + 1,
                    v@.len() as int,
                    ));
                }
                return (true, nl + 1, n);
            }
            nl = nl + 1;
            q = q + 2;
        } else if ch == 'c' || ch == 'b' {
            let q2 = if n - q >= 2 {
                q + 2
            } else {
                n
            };
            proof {
                assert(right_alone(v@, q as int + 2, iv, nl as int) == right_alone(
                    v@,
                    q2 as int,
                    iv,
                    nl as int,
                ));
            }
            q = q2;
        } else if right_intervening(ch) {
            iv = true;
            q = q + 1;
        } else {
            return (seg_break(ch), nl, q);
        }
    }
}

/// Standing-alone test over the character vector; `i` points at the
/// letter marker.
pub fn stands_alone(v: &Vec<char>, i: usize) -> (r: (bool, usize, usize))
    requires
        i + 2 <= v@.len(),
    ensures
        spec_stands_alone(v@, i as int) == (r.0, r.1 as int, r.2 as int),
        i + 2 <= r.1 <= v@.len(),
    // (alone, end of right-matched run, n_letters)

{
    let n = v.len();
    proof {
        assert(i + 2 <= n);
    }
    if !left_alone_at(v, i) {
        return (false, i + 2, 0);
    }
    let ra = right_alone_at(v, i + 2);
    let alone = if ra.0 && ra.1 == 1 && i + 1 < v.len() && (v[i + 1] == '⠁' || v[i + 1] == '⠊'
        || v[i + 1] == '⠕') {
        false
    } else {
        ra.0
    };
    (alone, ra.2, ra.1)
}

/// The fixed set of UEB shortform letter-runs.
#[verifier::opaque]
pub open spec fn spec_is_short_form(p: Seq<char>) -> bool {
    ||| p == "L⠁L⠃"@
    ||| p == "L⠁L⠃L⠧"@
    ||| p == "L⠁L⠉"@
    ||| p == "L⠁L⠉L⠗"@
    ||| p == "L⠁L⠋"@
    ||| p == "L⠁L⠋L⠝"@
    ||| p == "L⠁L⠋L⠺"@
    ||| p == "L⠁L⠛"@
    ||| p == "L⠁L⠛L⠌"@
    ||| p == "L⠁L⠇"@
    ||| p == "L⠁L⠇L⠍"@
    ||| p == "L⠁L⠇L⠗"@
    ||| p == "L⠁L⠇L⠞"@
    ||| p == "L⠁L⠇L⠹"@
    ||| p == "L⠁L⠇L⠺"@
    ||| p == "L⠃L⠇"@
    ||| p == "L⠃L⠗L⠇"@
    ||| p == "L⠉L⠙"@
    ||| p == "L⠙L⠉L⠇"@
    ||| p == "L⠙L⠉L⠇L⠛"@
    ||| p == "L⠙L⠉L⠧"@
    ||| p == "L⠙L⠉L⠧L⠛"@
    ||| p == "L⠑L⠊"@
    ||| p == "L⠋L⠗"@
    ||| p == "L⠋L⠌"@
    ||| p == "L⠛L⠙"@
    ||| p == "L⠛L⠗L⠞"@
    ||| p == "L⠓L⠍"@
    ||| p == "L⠓L⠍L⠋"@
    ||| p == "L⠓L⠻L⠋"@
    ||| p == "L⠊L⠍L⠍"@
    ||| p == "L⠇L⠇"@
    ||| p == "L⠇L⠗"@
    ||| p == "L⠍L⠽L⠋"@
    ||| p == "L⠍L⠡"@
    ||| p == "L⠍L⠌"@
    ||| p == "L⠝L⠑L⠉"@
    ||| p == "L⠝L⠑L⠊"@
    ||| p == "L⠏L⠙"@
    ||| p == "L⠏L⠻L⠉L⠧"@
    ||| p == "L⠏L⠻L⠉L⠧L⠛"@
    ||| p == "L⠏L⠻L⠓"@
    ||| p == "L⠟L⠅"@
    ||| p == "L⠗L⠉L⠧"@
    ||| p == "L⠗L⠉L⠧L⠛"@
    ||| p == "L⠗L⠚L⠉"@
    ||| p == "L⠗L⠚L⠉L⠛"@
    ||| p == "L⠎L⠙"@
    ||| p == "L⠎L⠡"@
    ||| p == "L⠞L⠙"@
    ||| p == "L⠞L⠛L⠗"@
    ||| p == "L⠞L⠍"@
    ||| p == "L⠞L⠝"@
    ||| p == "L⠭L⠋"@
    ||| p == "L⠭L⠎"@
    ||| p == "L⠽L⠗"@
    ||| p == "L⠽L⠗L⠋"@
    ||| p == "L⠽L⠗L⠧L⠎"@
    ||| p == "L⠮L⠍L⠧L⠎"@
    ||| p == "L⠡L⠝"@
    ||| p == "L⠩L⠙"@
    ||| p == "L⠹L⠽L⠋"@
    ||| p == "L⠳L⠗L⠧L⠎"@
    ||| p == "L⠺L⠙"@
    ||| p == "L⠆L⠉"@
    ||| p == "L⠆L⠋"@
    ||| p == "L⠆L⠓"@
    ||| p == "L⠆L⠇"@
    ||| p == "L⠆L⠝"@
    ||| p == "L⠆L⠎"@
    ||| p == "L⠆L⠞"@
    ||| p == "L⠆L⠽"@
    ||| p == "L⠒L⠉L⠧"@
    ||| p == "L⠒L⠉L⠧L⠛"@
    ||| p == "L⠐L⠕L⠋"@
}

/// Whether the letter-run is one of the fixed UEB shortforms.
pub fn is_short_form(p: &Vec<char>) -> (r: bool)
    ensures
        r == spec_is_short_form(p@),
{
    proof {
        reveal(spec_is_short_form);
    }
    let s = crate::strutil::from_chars(p);
    let r = s.eq(&String::from_str("L⠁L⠃")) || s.eq(&String::from_str("L⠁L⠃L⠧")) || s.eq(
        &String::from_str("L⠁L⠉"),
    ) || s.eq(&String::from_str("L⠁L⠉L⠗")) || s.eq(&String::from_str("L⠁L⠋")) || s.eq(
        &String::from_str("L⠁L⠋L⠝"),
    ) || s.eq(&String::from_str("L⠁L⠋L⠺")) || s.eq(&String::from_str("L⠁L⠛")) || s.eq(
        &String::from_str("L⠁L⠛L⠌"),
    ) || s.eq(&String::from_str("L⠁L⠇")) || s.eq(&String::from_str("L⠁L⠇L⠍")) || s.eq(
        &String::from_str("L⠁L⠇L⠗"),
    ) || s.eq(&String::from_str("L⠁L⠇L⠞")) || s.eq(&String::from_str("L⠁L⠇L⠹")) || s.eq(
        &String::from_str("L⠁L⠇L⠺"),
    ) || s.eq(&String::from_str("L⠃L⠇")) || s.eq(&String::from_str("L⠃L⠗L⠇")) || s.eq(
        &String::from_str("L⠉L⠙"),
    ) || s.eq(&String::from_str("L⠙L⠉L⠇")) || s.eq(&String::from_str("L⠙L⠉L⠇L⠛")) || s.eq(
        &String::from_str("L⠙L⠉L⠧"),
    ) || s.eq(&String::from_str("L⠙L⠉L⠧L⠛")) || s.eq(&String::from_str("L⠑L⠊")) || s.eq(
        &String::from_str("L⠋L⠗"),
    ) || s.eq(&String::from_str("L⠋L⠌")) || s.eq(&String::from_str("L⠛L⠙")) || s.eq(
        &String::from_str("L⠛L⠗L⠞"),
    ) || s.eq(&String::from_str("L⠓L⠍")) || s.eq(&String::from_str("L⠓L⠍L⠋")) || s.eq(
        &String::from_str("L⠓L⠻L⠋"),
    ) || s.eq(&String::from_str("L⠊L⠍L⠍")) || s.eq(&String::from_str("L⠇L⠇")) || s.eq(
        &String::from_str("L⠇L⠗"),
    ) || s.eq(&String::from_str("L⠍L⠽L⠋")) || s.eq(&String::from_str("L⠍L⠡")) || s.eq(
        &String::from_str("L⠍L⠌"),
    ) || s.eq(&String::from_str("L⠝L⠑L⠉")) || s.eq(&String::from_str("L⠝L⠑L⠊")) || s.eq(
        &String::from_str("L⠏L⠙"),
    ) || s.eq(&String::from_str("L⠏L⠻L⠉L⠧")) || s.eq(&String::from_str("L⠏L⠻L⠉L⠧L⠛")) || s.eq(
        &String::from_str("L⠏L⠻L⠓"),
    ) || s.eq(&String::from_str("L⠟L⠅")) || s.eq(&String::from_str("L⠗L⠉L⠧")) || s.eq(
        &String::from_str("L⠗L⠉L⠧L⠛"),
    ) || s.eq(&String::from_str("L⠗L⠚L⠉")) || s.eq(&String::from_str("L⠗L⠚L⠉L⠛")) || s.eq(
        &String::from_str("L⠎L⠙"),
    ) || s.eq(&String::from_str("L⠎L⠡")) || s.eq(&String::from_str("L⠞L⠙")) || s.eq(
        &String::from_str("L⠞L⠛L⠗"),
    ) || s.eq(&String::from_str("L⠞L⠍")) || s.eq(&String::from_str("L⠞L⠝")) || s.eq(
        &String::from_str("L⠭L⠋"),
    ) || s.eq(&String::from_str("L⠭L⠎")) || s.eq(&String::from_str("L⠽L⠗")) || s.eq(
        &String::from_str("L⠽L⠗L⠋"),
    ) || s.eq(&String::from_str("L⠽L⠗L⠧L⠎")) || s.eq(&String::from_str("L⠮L⠍L⠧L⠎")) || s.eq(
        &String::from_str("L⠡L⠝"),
    ) || s.eq(&String::from_str("L⠩L⠙")) || s.eq(&String::from_str("L⠹L⠽L⠋")) || s.eq(
        &String::from_str("L⠳L⠗L⠧L⠎"),
    ) || s.eq(&String::from_str("L⠺L⠙")) || s.eq(&String::from_str("L⠆L⠉")) || s.eq(
        &String::from_str("L⠆L⠋"),
    ) || s.eq(&String::from_str("L⠆L⠓")) || s.eq(&String::from_str("L⠆L⠇")) || s.eq(
        &String::from_str("L⠆L⠝"),
    ) || s.eq(&String::from_str("L⠆L⠎")) || s.eq(&String::from_str("L⠆L⠞")) || s.eq(
        &String::from_str("L⠆L⠽"),
    ) || s.eq(&String::from_str("L⠒L⠉L⠧")) || s.eq(&String::from_str("L⠒L⠉L⠧L⠛")) || s.eq(
        &String::from_str("L⠐L⠕L⠋"),
    );
    r
}

/// The literal `pat` occurs at position `i`.
pub open spec fn lit_at(s: Seq<char>, i: int, pat: Seq<char>) -> bool {
    0 <= i && i + pat.len() <= s.len() && s.subrange(i, i + pat.len()) == pat
}

/// The literal `pat` occurs at or after position `i`.
pub open spec fn contains_lit(s: Seq<char>, i: int, pat: Seq<char>) -> bool
    decreases s.len() - i,
{
    if i < 0 || i >= s.len() {
        false
    } else if lit_at(s, i, pat) {
        true
    } else {
        contains_lit(s, i + 1, pat)
    }
}

/// Replace every non-overlapping occurrence of `pat` by `rep`, scanning
/// left to right.
pub open spec fn replace_lit(s: Seq<char>, i: int, pat: Seq<char>, rep: Seq<char>) -> Seq<char>
    decreases s.len() - i,
{
    if i < 0 || i >= s.len() {
        Seq::empty()
    } else if pat.len() > 0 && lit_at(s, i, pat) {
        rep + replace_lit(s, i + pat.len(), pat, rep)
    } else {
        seq![s[i]] + replace_lit(s, i + 1, pat, rep)
    }
}

/// A letter pair followed by the literal `pat` occurs at or after `i`.
pub open spec fn contains_pair_lit(s: Seq<char>, i: int, pat: Seq<char>) -> bool
    decreases s.len() - i,
{
    if i < 0 || i >= s.len() {
        false
    } else if s[i] == 'L' && lit_at(s, i + 2, pat) {
        true
    } else {
        contains_pair_lit(s, i + 1, pat)
    }
}

/// Replace a letter pair plus `pat` by the letter pair plus `rep`.
pub open spec fn replace_pair_lit(s: Seq<char>, i: int, pat: Seq<char>, rep: Seq<char>) -> Seq<
    char,
>
    decreases s.len() - i,
{
    if i < 0 || i >= s.len() {
        Seq::empty()
    } else if pat.len() > 0 && s[i] == 'L' && lit_at(s, i + 2, pat) {
        seq![s[i], s[i + 1]] + rep + replace_pair_lit(s, i + 2 + pat.len(), pat, rep)
    } else {
        seq![s[i]] + replace_pair_lit(s, i + 1, pat, rep)
    }
}

/// The two-letter bridge "ea" flanked by letter pairs occurs at `i`.
pub open spec fn ea_at(s: Seq<char>, i: int) -> bool {
    0 <= i && i + 7 < s.len() && s[i] == 'L' && s[i + 2] == 'L' && s[i + 3] == '⠑' && s[i + 4]
        == 'L' && s[i + 5] == '⠁' && s[i + 6] == 'L'
}

pub open spec fn contains_ea(s: Seq<char>, i: int) -> bool
    decreases s.len() - i,
{
    if i < 0 || i >= s.len() {
        false
    } else if ea_at(s, i) {
        true
    } else {
        contains_ea(s, i + 1)
    }
}

/// Replace "ea" between letters by the low dot-2 contraction, keeping
/// both flanking letters.
pub open spec fn replace_ea(s: Seq<char>, i: int) -> Seq<char>
    decreases s.len() - i,
{
    if i < 0 || i >= s.len() {
        Seq::empty()
    } else if ea_at(s, i) {
        seq![s[i], s[i + 1], 'L', '⠂', s[i + 6], s[i + 7]] + replace_ea(s, i + 8)
    } else {
        seq![s[i]] + replace_ea(s, i + 1)
    }
}

pub open spec fn pat_and() -> Seq<char> {
    seq!['L', '⠁', 'L', '⠝', 'L', '⠙']
}

pub open spec fn pat_for() -> Seq<char> {
    seq!['L', '⠋', 'L', '⠕', 'L', '⠗']
}

pub open spec fn pat_of() -> Seq<char> {
    seq!['L', '⠕', 'L', '⠋']
}

pub open spec fn pat_the() -> Seq<char> {
    seq!['L', '⠞', 'L', '⠓', 'L', '⠑']
}

pub open spec fn pat_with() -> Seq<char> {
    seq!['L', '⠺', 'L', '⠊', 'L', '⠞', 'L', '⠓']
}

pub open spec fn pat_ch() -> Seq<char> {
    seq!['L', '⠉', 'L', '⠓']
}

pub open spec fn pat_in() -> Seq<char> {
    seq!['L', '⠊', 'L', '⠝']
}

pub open spec fn pat_sh() -> Seq<char> {
    seq!['L', '⠎', 'L', '⠓']
}

pub open spec fn pat_ar() -> Seq<char> {
    seq!['L', '⠁', 'L', '⠗']
}

pub open spec fn pat_er() -> Seq<char> {
    seq!['L', '⠑', 'L', '⠗']
}

pub open spec fn pat_ment() -> Seq<char> {
    seq!['L', '⠍', 'L', '⠑', 'L', '⠝', 'L', '⠞']
}

pub open spec fn pat_tion() -> Seq<char> {
    seq!['L', '⠞', 'L', '⠊', 'L', '⠕', 'L', '⠝']
}

/// One step of the contraction table: apply the replacement only when
/// the pattern occurred in the original run.
pub open spec fn contract_step(cur: Seq<char>, orig: Seq<char>, pat: Seq<char>, rep: Seq<char>) -> Seq<char> {
    if contains_lit(orig, 0, pat) {
        replace_lit(cur, 0, pat, rep)
    } else {
        cur
    }
}

pub open spec fn contract_pair_step(cur: Seq<char>, orig: Seq<char>, pat: Seq<char>, rep: Seq<char>) -> Seq<char> {
    if contains_pair_lit(orig, 0, pat) {
        replace_pair_lit(cur, 0, pat, rep)
    } else {
        cur
    }
}

/// The grade-2 contraction pass over a letter run: the whole-word and
/// groupsign replacements in table order, each applied only when its
/// pattern occurs in the original run, then the ment/tion/ea groups.
#[verifier::opaque]
pub open spec fn spec_contract(run: Seq<char>) -> Seq<char> {
    let s1 = contract_step(run, run, pat_and(), seq!['L', '⠯']);
    let s2 = contract_step(s1, run, pat_for(), seq!['L', '⠿']);
    let s3 = contract_step(s2, run, pat_of(), seq!['L', '⠷']);
    let s4 = contract_step(s3, run, pat_the(), seq!['L', '⠮']);
    let s5 = contract_step(s4, run, pat_with(), seq!['L', '⠾']);
    let s6 = contract_step(s5, run, pat_ch(), seq!['L', '⠡']);
    let s7 = contract_step(s6, run, pat_in(), seq!['L', '⠔']);
    let s8 = contract_step(s7, run, pat_sh(), seq!['L', '⠩']);
    let s9 = contract_step(s8, run, pat_ar(), seq!['L', '⠜']);
    let s10 = contract_step(s9, run, pat_er(), seq!['L', '⠻']);
    let s11 = contract_pair_step(s10, run, pat_ment(), seq!['L', '⠰', 'L', '⠞']);
    let s12 = contract_pair_step(s11, run, pat_tion(), seq!['L', '⠰', 'L', '⠝']);
    if contains_ea(run, 0) {
        replace_ea(s12, 0)
    } else {
        s12
    }
}

fn lit_at_exec(v: &Vec<char>, i: usize, pat: &Vec<char>) -> (r: bool)
    requires
        i <= v@.len(),
    ensures
        r == lit_at(v@, i as int, pat@),
{
    if v.len() - i < pat.len() {
        proof {
            assert(!lit_at(v@, i as int, pat@));
        }
        return false;
    }
    let mut k: usize = 0;
    while k < pat.len()
        invariant
            k <= pat@.len(),
            i + pat@.len() <= v@.len(),
            v@.len() <= usize::MAX,
            forall|j: int| 0 <= j < k ==> v@[i + j] == pat@[j],
        decreases pat@.len() - k,
    {
        if v[i + k] != pat[k] {
            proof {
                assert(v@.subrange(i as int, i + pat@.len())[k as int] != pat@[k as int]);
            }
            return false;
        }
        k = k + 1;
    }
    proof {
        assert(v@.subrange(i as int, i + pat@.len()) =~= pat@);
    }
    true
}

fn contains_lit_exec(v: &Vec<char>, pat: &Vec<char>) -> (r: bool)
    ensures
        r == contains_lit(v@, 0, pat@),
{
    let mut i: usize = 0;
    while i < v.len()
        invariant
            i <= v@.len(),
            contains_lit(v@, 0, pat@) == contains_lit(v@, i as int, pat@),
        decreases v@.len() - i,
    {
        if lit_at_exec(v, i, pat) {
            return true;
        }
        i = i + 1;
    }
    false
}

fn replace_lit_exec(v: &Vec<char>, pat: &Vec<char>, rep: &Vec<char>) -> (r: Vec<char>)
    requires
        pat@.len() > 0,
    ensures
        r@ == replace_lit(v@, 0, pat@, rep@),
{
    let mut out: Vec<char> = Vec::new();
    let mut i: usize = 0;
    while i < v.len()
        invariant
            i <= v@.len(),
            pat@.len() > 0,
            replace_lit(v@, 0, pat@, rep@) == out@ + replace_lit(v@, i as int, pat@, rep@),
        decreases v@.len() - i,
    {
        if lit_at_exec(v, i, pat) {
            let mut k: usize = 0;
            crate::strutil::push_range(&mut out, rep, 0, rep.len());
            proof {
                assert(rep@.subrange(0, rep@.len() as int) =~= rep@);
            }
            i = i + pat.len();
        } else {
            out.push(v[i]);
            i = i + 1;
        }
        proof {
            assert(replace_lit(v@, 0, pat@, rep@) =~= out@ + replace_lit(v@, i as int, pat@, rep@));
        }
    }
    out
}

fn contains_pair_lit_exec(v: &Vec<char>, pat: &Vec<char>) -> (r: bool)
    ensures
        r == contains_pair_lit(v@, 0, pat@),
{
    let mut i: usize = 0;
    while i < v.len()
        invariant
            i <= v@.len(),
            contains_pair_lit(v@, 0, pat@) == contains_pair_lit(v@, i as int, pat@),
        decreases v@.len() - i,
    {
        if v[i] == 'L' && v.len() - i >= 2 && lit_at_exec(v, i + 2, pat) {
            return true;
        }
        proof {
            if v@[i as int] == 'L' && !(v@.len() - i >= 2) {
                assert(!lit_at(v@, i as int + 2, pat@));
            }
        }
        i = i + 1;
    }
    false
}

fn replace_pair_lit_exec(v: &Vec<char>, pat: &Vec<char>, rep: &Vec<char>) -> (r: Vec<char>)
    requires
        pat@.len() > 0,
    ensures
        r@ == replace_pair_lit(v@, 0, pat@, rep@),
{
    let mut out: Vec<char> = Vec::new();
    let mut i: usize = 0;
    while i < v.len()
        invariant
            i <= v@.len(),
            pat@.len() > 0,
            replace_pair_lit(v@, 0, pat@, rep@) == out@ + replace_pair_lit(
                v@,
                i as int,
                pat@,
                rep@,
            ),
        decreases v@.len() - i,
    {
        if v[i] == 'L' && v.len() - i >= 2 && lit_at_exec(v, i + 2, pat) {
            out.push(v[i]);
            out.push(v[i + 1]);
            crate::strutil::push_range(&mut out, rep, 0, rep.len());
            proof {
                assert(rep@.subrange(0, rep@.len() as int) =~= rep@);
            }
            i = i + 2 + pat.len();
        } else {
            proof {
                if v@[i as int] == 'L' && !(v@.len() - i >= 2) {
                    assert(!lit_at(v@, i as int + 2, pat@));
                }
            }
            out.push(v[i]);
            i = i + 1;
        }
        proof {
            assert(replace_pair_lit(v@, 0, pat@, rep@) =~= out@ + replace_pair_lit(
                v@,
                i as int,
                pat@,
                rep@,
            ));
        }
    }
    out
}

fn ea_at_exec(v: &Vec<char>, i: usize) -> (r: bool)
    requires
        i <= v@.len(),
    ensures
        r == ea_at(v@, i as int),
{
    v.len() - i >= 8 && v[i] == 'L' && v[i + 2] == 'L' && v[i + 3] == '⠑' && v[i + 4] == 'L'
        && v[i + 5] == '⠁' && v[i + 6] == 'L'
}

fn contains_ea_exec(v: &Vec<char>) -> (r: bool)
    ensures
        r == contains_ea(v@, 0),
{
    let mut i: usize = 0;
    while i < v.len()
        invariant
            i <= v@.len(),
            contains_ea(v@, 0) == contains_ea(v@, i as int),
        decreases v@.len() - i,
    {
        if ea_at_exec(v, i) {
            return true;
        }
        i = i + 1;
    }
    false
}

fn replace_ea_exec(v: &Vec<char>) -> (r: Vec<char>)
    ensures
        r@ == replace_ea(v@, 0),
{
    let mut out: Vec<char> = Vec::new();
    let mut i: usize = 0;
    while i < v.len()
        invariant
            i <= v@.len(),
            replace_ea(v@, 0) == out@ + replace_ea(v@, i as int),
        decreases v@.len() - i,
    {
        if ea_at_exec(v, i) {
            out.push(v[i]);
            out.push(v[i + 1]);
            out.push('L');
            out.push('⠂');
            out.push(v[i + 6]);
            out.push(v[i + 7]);
            i = i + 8;
        } else {
            out.push(v[i]);
            i = i + 1;
        }
        proof {
            assert(replace_ea(v@, 0) =~= out@ + replace_ea(v@, i as int));
        }
    }
    out
}

fn contract_step_exec(cur: Vec<char>, orig: &Vec<char>, pat: &Vec<char>, rep: &Vec<char>) -> (r:
    Vec<char>)
    requires
        pat@.len() > 0,
    ensures
        r@ == contract_step(cur@, orig@, pat@, rep@),
{
    if contains_lit_exec(orig, pat) {
        replace_lit_exec(&cur, pat, rep)
    } else {
        cur
    }
}

fn contract_pair_step_exec(cur: Vec<char>, orig: &Vec<char>, pat: &Vec<char>, rep: &Vec<char>) -> (r: Vec<char>)
    requires
        pat@.len() > 0,
    ensures
        r@ == contract_pair_step(cur@, orig@, pat@, rep@),
{
    if contains_pair_lit_exec(orig, pat) {
        replace_pair_lit_exec(&cur, pat, rep)
    } else {
        cur
    }
}

/// Apply the grade-2 contractions to a buffered letter run.
pub fn handle_contractions(run: &Vec<char>) -> (r: Vec<char>)
    ensures
        r@ == spec_contract(run@),
{
    proof {
        reveal(spec_contract);
    }
    let p_and: Vec<char> = vec!['L', '⠁', 'L', '⠝', 'L', '⠙'];
    let p_for: Vec<char> = vec!['L', '⠋', 'L', '⠕', 'L', '⠗'];
    let p_of: Vec<char> = vec!['L', '⠕', 'L', '⠋'];
    let p_the: Vec<char> = vec!['L', '⠞', 'L', '⠓', 'L', '⠑'];
    let p_with: Vec<char> = vec!['L', '⠺', 'L', '⠊', 'L', '⠞', 'L', '⠓'];
    let p_ch: Vec<char> = vec!['L', '⠉', 'L', '⠓'];
    let p_in: Vec<char> = vec!['L', '⠊', 'L', '⠝'];
    let p_sh: Vec<char> = vec!['L', '⠎', 'L', '⠓'];
    let p_ar: Vec<char> = vec!['L', '⠁', 'L', '⠗'];
    let p_er: Vec<char> = vec!['L', '⠑', 'L', '⠗'];
    let p_ment: Vec<char> = vec!['L', '⠍', 'L', '⠑', 'L', '⠝', 'L', '⠞'];
    let p_tion: Vec<char> = vec!['L', '⠞', 'L', '⠊', 'L', '⠕', 'L', '⠝'];
    proof {
        assert(p_and@ =~= pat_and());
        assert(p_for@ =~= pat_for());
        assert(p_of@ =~= pat_of());
        assert(p_the@ =~= pat_the());
        assert(p_with@ =~= pat_with());
        assert(p_ch@ =~= pat_ch());
        assert(p_in@ =~= pat_in());
        assert(p_sh@ =~= pat_sh());
        assert(p_ar@ =~= pat_ar());
        assert(p_er@ =~= pat_er());
        assert(p_ment@ =~= pat_ment());
        assert(p_tion@ =~= pat_tion());
    }
    let mut cur: Vec<char> = Vec::new();
    crate::strutil::push_all(&mut cur, run);
    proof {
        assert(cur@ =~= run@);
    }
    let r_and: Vec<char> = vec!['L', '⠯'];
    let cur = contract_step_exec(cur, run, &p_and, &r_and);
    let r_for: Vec<char> = vec!['L', '⠿'];
    let cur = contract_step_exec(cur, run, &p_for, &r_for);
    let r_of: Vec<char> = vec!['L', '⠷'];
    let cur = contract_step_exec(cur, run, &p_of, &r_of);
    let r_the: Vec<char> = vec!['L', '⠮'];
    let cur = contract_step_exec(cur, run, &p_the, &r_the);
    let r_with: Vec<char> = vec!['L', '⠾'];
    let cur = contract_step_exec(cur, run, &p_with, &r_with);
    let r_ch: Vec<char> = vec!['L', '⠡'];
    let cur = contract_step_exec(cur, run, &p_ch, &r_ch);
    let r_in: Vec<char> = vec!['L', '⠔'];
    let cur = contract_step_exec(cur, run, &p_in, &r_in);
    let r_sh: Vec<char> = vec!['L', '⠩'];
    let cur = contract_step_exec(cur, run, &p_sh, &r_sh);
    let r_ar: Vec<char> = vec!['L', '⠜'];
    let cur = contract_step_exec(cur, run, &p_ar, &r_ar);
    let r_er: Vec<char> = vec!['L', '⠻'];
    let cur = contract_step_exec(cur, run, &p_er, &r_er);
    let r_ment: Vec<char> = vec!['L', '⠰', 'L', '⠞'];
    let cur = contract_pair_step_exec(cur, run, &p_ment, &r_ment);
    let r_tion: Vec<char> = vec!['L', '⠰', 'L', '⠝'];
    let cur = contract_pair_step_exec(cur, run, &p_tion, &r_tion);
    if contains_ea_exec(run) {
        replace_ea_exec(&cur)
    } else {
        cur
    }
}

#[derive(Clone, Copy, PartialEq, Eq, Structural)]
pub enum UebMode {
    Numeric,
    Grade1,
    Grade2,
}

#[derive(Clone, Copy, PartialEq, Eq, Structural)]
pub enum UebDuration {
    Symbol,
    Word,
    Passage,
}

/// The right-scan stop position never leaves the stream.
pub proof fn lemma_right_alone_bounds(s: Seq<char>, q: int, iv: bool, nl: int)
    requires
        0 <= q,
    ensures
        right_alone(s, q, iv, nl).2 <= s.len(),
        q <= s.len() ==> q <= right_alone(s, q, iv, nl).2,
        q > s.len() ==> right_alone(s, q, iv, nl).2 == s.len(),
    decreases s.len() + 2 - q,
{
    if q < s.len() {
        let ch = s[q];
        if !iv && ch == 'L' {
            lemma_right_alone_bounds(s, q + 2, iv, nl + 1);
        } else if ch == 'c' || ch == 'b' {
            lemma_right_alone_bounds(s, q + 2, iv, nl);
        } else if is_right_intervening(ch) {
            lemma_right_alone_bounds(s, q + 1, true, nl);
        }
    }
}

/// The end of the standing-alone run, clamped to the stream.
pub open spec fn sa_end(s: Seq<char>, i: int) -> int {
    let e = spec_stands_alone(s, i).1;
    if e > s.len() {
        s.len() as int
    } else {
        e
    }
}

pub proof fn lemma_sa_end_bounds(s: Seq<char>, i: int)
    requires
        0 <= i < s.len(),
    ensures
        i + 1 <= sa_end(s, i) <= s.len(),
        i + 2 <= s.len() ==> i + 2 <= sa_end(s, i),
{
    lemma_right_alone_bounds(s, i + 2, false, 1);
}

/// The letter-run prefix handed to the shortform test: the first
/// 2×(letter count) characters of the right-matched run, clamped.
pub open spec fn sa_prefix(s: Seq<char>, i: int) -> Seq<char> {
    let nl = spec_stands_alone(s, i).2;
    let rm = s.subrange(i, sa_end(s, i));
    if 2 * nl <= rm.len() {
        rm.subrange(0, 2 * nl)
    } else {
        rm
    }
}

/// The grade-1 indicator is owed when the letter run stands alone and is
/// a single letter or a shortform.
pub open spec fn sa_one(s: Seq<char>, i: int) -> bool {
    let sa = spec_stands_alone(s, i);
    sa.0 && (sa.2 == 1 || spec_is_short_form(sa_prefix(s, i)))
}

/// The pending grade-2 letter run, flushed through the contraction
/// engine unless a capital word is open.
pub open spec fn flush_run(run: Seq<char>, capw: bool) -> Seq<char> {
    if run.len() == 0 {
        Seq::empty()
    } else if capw {
        run
    } else {
        spec_contract(run)
    }
}

/// The mode reducer: one pass over a segment that drops unneeded grade
/// and number markers, inserts owed grade-1 indicators, and applies
/// grade-2 contractions to letter runs.
#[verifier::opaque]
pub open spec fn spec_reduce(
    s: Seq<char>,
    i: int,
    mode: UebMode,
    dur: UebDuration,
    capw: bool,
    ing2: bool,
    run: Seq<char>,
    sm: UebMode,
    sd: UebDuration,
) -> Seq<char>
    decreases s.len() - i,
    via spec_reduce_decreases
{
    if i < 0 || i >= s.len() {
        if mode == UebMode::Grade2 && run.len() > 0 {
            spec_contract(run)
        } else {
            run
        }
    } else {
        let ch = s[i];
        if mode == UebMode::Numeric {
            if ch == 'L' {
                let one: Seq<char> = if i + 1 < s.len() && is_letter_number_cell(
                    spec_unhighlight(s[i + 1]),
                ) {
                    seq!['1']
                } else {
                    Seq::empty()
                };
                one + seq!['L'] + spec_reduce(s, i + 1, UebMode::Grade1, dur, capw, false, run, sm, sd)
            } else if ch == '1' || ch == '𝟙' {
                let d2 = if sd == UebDuration::Passage {
                    UebDuration::Passage
                } else {
                    dur
                };
                spec_reduce(s, i + 1, UebMode::Grade1, d2, capw, false, run, sm, sd)
            } else if ch == '#' {
                let one: Seq<char> = if i + 2 < s.len() && s[i + 1] == 'L' && is_letter_number_cell(
                    spec_unhighlight(s[i + 2]),
                ) {
                    seq!['1']
                } else {
                    Seq::empty()
                };
                one + spec_reduce(s, i + 1, UebMode::Grade1, dur, capw, false, run, sm, sd)
            } else if ch == 'N' {
                if i + 1 < s.len() {
                    seq![s[i + 1]] + spec_reduce(s, i + 2, UebMode::Numeric, dur, capw, false, run, sm, sd)
                } else {
                    spec_reduce(s, i + 1, UebMode::Numeric, dur, capw, false, run, sm, sd)
                }
            } else {
                let m2 = if is_seg_break(ch) {
                    sm
                } else {
                    UebMode::Grade1
                };
                seq![ch] + spec_reduce(s, i + 1, m2, dur, capw, false, run, sm, sd)
            }
        } else if mode == UebMode::Grade1 {
            if ch == 'L' {
                seq!['L'] + spec_reduce(s, i + 1, UebMode::Grade1, dur, capw, false, run, sm, sd)
            } else if ch == '1' || ch == '𝟙' {
                let d2 = if ch == '𝟙' {
                    UebDuration::Word
                } else {
                    dur
                };
                spec_reduce(s, i + 1, UebMode::Grade1, d2, capw, false, run, sm, sd)
            } else if ch == 'N' {
                if i + 1 < s.len() {
                    seq!['N', s[i + 1]] + spec_reduce(
                        s,
                        i + 2,
                        UebMode::Numeric,
                        UebDuration::Word,
                        capw,
                        false,
                        run,
                        sm,
                        sd,
                    )
                } else {
                    seq!['N'] + spec_reduce(s, i + 1, UebMode::Numeric, UebDuration::Word, capw, false, run, sm, sd)
                }
            } else if ch == 'W' || ch == '𝐖' {
                if sd != UebDuration::Passage {
                    seq![ch] + spec_reduce(
                        s,
                        i + 1,
                        UebMode::Grade2,
                        UebDuration::Symbol,
                        capw,
                        false,
                        run,
                        sm,
                        sd,
                    )
                } else {
                    seq![ch] + spec_reduce(s, i + 1, UebMode::Grade1, dur, capw, false, run, sm, sd)
                }
            } else {
                let m2 = if dur == UebDuration::Symbol && !is_letter_prefix(ch) {
                    sm
                } else {
                    UebMode::Grade1
                };
                seq![ch] + spec_reduce(s, i + 1, m2, dur, capw, false, run, sm, sd)
            }
        } else {
            // Grade 2
            let capw2 = if !ing2 {
                false
            } else {
                capw
            };
            if ch == 'L' {
                let one: Seq<char> = if sa_one(s, i) {
                    seq!['1']
                } else {
                    Seq::empty()
                };
                let m2 = if sa_one(s, i) {
                    UebMode::Grade1
                } else {
                    UebMode::Grade2
                };
                let run2 = run + one + s.subrange(i, sa_end(s, i));
                if m2 != UebMode::Grade2 {
                    flush_run(run2, capw2) + spec_reduce(
                        s,
                        sa_end(s, i),
                        m2,
                        dur,
                        capw2,
                        true,
                        Seq::empty(),
                        sm,
                        sd,
                    )
                } else {
                    spec_reduce(s, sa_end(s, i), m2, dur, capw2, true, run2, sm, sd)
                }
            } else if ch == 'C' && i + 1 < s.len() && s[i + 1] == 'C' {
                spec_reduce(s, i + 1, UebMode::Grade2, dur, true, true, run, sm, sd)
            } else if ch == 'C' && ({
                let greek = i + 1 < s.len() && s[i + 1] == 'G';
                let base: int = if greek {
                    i + 2
                } else {
                    i + 1
                };
                base < s.len() && s[base] == 'L'
            }) {
                let greek = i + 1 < s.len() && s[i + 1] == 'G';
                let base: int = if greek {
                    i + 2
                } else {
                    i + 1
                };
                let one: Seq<char> = if sa_one(s, base) {
                    seq!['1']
                } else {
                    Seq::empty()
                };
                let m2 = if sa_one(s, base) {
                    UebMode::Grade1
                } else {
                    UebMode::Grade2
                };
                let extra: Seq<char> = if capw2 {
                    seq!['C']
                } else {
                    Seq::empty()
                };
                let lead: Seq<char> = if greek {
                    seq!['C']
                } else {
                    Seq::empty()
                };
                let run2: Seq<char> = (if greek {
                    seq!['G']
                } else {
                    seq!['C']
                }) + s.subrange(base, sa_end(s, base));
                let emitted = run + one + extra + lead;
                if m2 != UebMode::Grade2 {
                    emitted + flush_run(run2, capw2) + spec_reduce(
                        s,
                        sa_end(s, base),
                        m2,
                        dur,
                        capw2,
                        true,
                        Seq::empty(),
                        sm,
                        sd,
                    )
                } else {
                    emitted + spec_reduce(s, sa_end(s, base), m2, dur, capw2, true, run2, sm, sd)
                }
            } else if ch == '1' || ch == '𝟙' {
                let d2 = if ch == '1' {
                    UebDuration::Symbol
                } else {
                    UebDuration::Word
                };
                if run.len() == 0 {
                    seq![ch] + spec_reduce(s, i + 1, UebMode::Grade1, d2, capw2, true, run, sm, sd)
                } else {
                    flush_run(run + seq![ch], capw2) + spec_reduce(
                        s,
                        i + 1,
                        UebMode::Grade1,
                        d2,
                        capw2,
                        true,
                        Seq::empty(),
                        sm,
                        sd,
                    )
                }
            } else if ch == 'N' {
                let pair: Seq<char> = if i + 1 < s.len() {
                    seq!['N', s[i + 1]]
                } else {
                    seq!['N']
                };
                let i2: int = if i + 1 < s.len() {
                    i + 2
                } else {
                    i + 1
                };
                if run.len() == 0 {
                    pair + spec_reduce(s, i2, UebMode::Numeric, UebDuration::Word, capw2, true, run, sm, sd)
                } else {
                    flush_run(run + pair, capw2) + spec_reduce(
                        s,
                        i2,
                        UebMode::Numeric,
                        UebDuration::Word,
                        capw2,
                        true,
                        Seq::empty(),
                        sm,
                        sd,
                    )
                }
            } else {
                let capw3 = if run.len() > 0 {
                    false
                } else {
                    capw2
                };
                let capw4 = if !is_left_intervening(ch) {
                    false
                } else {
                    capw3
                };
                flush_run(run, capw2) + seq![ch] + spec_reduce(
                    s,
                    i + 1,
                    UebMode::Grade2,
                    dur,
                    capw4,
                    true,
                    Seq::empty(),
                    sm,
                    sd,
                )
            }
        }
    }
}

#[via_fn]
proof fn spec_reduce_decreases(
    s: Seq<char>,
    i: int,
    mode: UebMode,
    dur: UebDuration,
    capw: bool,
    ing2: bool,
    run: Seq<char>,
    sm: UebMode,
    sd: UebDuration,
) {
    if 0 <= i && i < s.len() && mode == UebMode::Grade2 {
        let ch = s[i];
        if ch == 'L' {
            lemma_sa_end_bounds(s, i);
        } else if ch == 'C' {
            let greek = i + 1 < s.len() && s[i + 1] == 'G';
            let base: int = if greek {
                i + 2
            } else {
                i + 1
            };
            if base < s.len() && s[base] == 'L' {
                lemma_sa_end_bounds(s, base);
            }
        }
    }
}

/// Unfolding lemmas for the opaque reducer, one per transition.
pub proof fn lemma_reduce_end(
    s: Seq<char>,
    i: int,
    mode: UebMode,
    dur: UebDuration,
    capw: bool,
    ing2: bool,
    run: Seq<char>,
    sm: UebMode,
    sd: UebDuration,
)
    requires
        i >= s.len(),
    ensures
        spec_reduce(s, i, mode, dur, capw, ing2, run, sm, sd) == (if mode == UebMode::Grade2
            && run.len() > 0 {
            spec_contract(run)
        } else {
            run
        }),
{
    reveal(spec_reduce);
}

pub proof fn lemma_reduce_numeric(
    s: Seq<char>,
    i: int,
    dur: UebDuration,
    capw: bool,
    ing2: bool,
    run: Seq<char>,
    sm: UebMode,
    sd: UebDuration,
)
    requires
        0 <= i < s.len(),
    ensures
        spec_reduce(s, i, UebMode::Numeric, dur, capw, ing2, run, sm, sd) == ({
            let ch = s[i];
            if ch == 'L' {
                let one: Seq<char> = if i + 1 < s.len() && is_letter_number_cell(
                    spec_unhighlight(s[i + 1]),
                ) {
                    seq!['1']
                } else {
                    Seq::empty()
                };
                one + seq!['L'] + spec_reduce(s, i + 1, UebMode::Grade1, dur, capw, false, run, sm, sd)
            } else if ch == '1' || ch == '𝟙' {
                let d2 = if sd == UebDuration::Passage {
                    UebDuration::Passage
                } else {
                    dur
                };
                spec_reduce(s, i + 1, UebMode::Grade1, d2, capw, false, run, sm, sd)
            } else if ch == '#' {
                let one: Seq<char> = if i + 2 < s.len() && s[i + 1] == 'L' && is_letter_number_cell(
                    spec_unhighlight(s[i + 2]),
                ) {
                    seq!['1']
                } else {
                    Seq::empty()
                };
                one + spec_reduce(s, i + 1, UebMode::Grade1, dur, capw, false, run, sm, sd)
            } else if ch == 'N' {
                if i + 1 < s.len() {
                    seq![s[i + 1]] + spec_reduce(s, i + 2, UebMode::Numeric, dur, capw, false, run, sm, sd)
                } else {
                    spec_reduce(s, i + 1, UebMode::Numeric, dur, capw, false, run, sm, sd)
                }
            } else {
                let m2 = if is_seg_break(ch) {
                    sm
                } else {
                    UebMode::Grade1
                };
                seq![ch] + spec_reduce(s, i + 1, m2, dur, capw, false, run, sm, sd)
            }
        }),
{
    reveal(spec_reduce);
}

pub proof fn lemma_reduce_grade1(
    s: Seq<char>,
    i: int,
    dur: UebDuration,
    capw: bool,
    ing2: bool,
    run: Seq<char>,
    sm: UebMode,
    sd: UebDuration,
)
    requires
        0 <= i < s.len(),
    ensures
        spec_reduce(s, i, UebMode::Grade1, dur, capw, ing2, run, sm, sd) == ({
            let ch = s[i];
            if ch == 'L' {
                seq!['L'] + spec_reduce(s, i + 1, UebMode::Grade1, dur, capw, false, run, sm, sd)
            } else if ch == '1' || ch == '𝟙' {
                let d2 = if ch == '𝟙' {
                    UebDuration::Word
                } else {
                    dur
                };
                spec_reduce(s, i + 1, UebMode::Grade1, d2, capw, false, run, sm, sd)
            } else if ch == 'N' {
                if i + 1 < s.len() {
                    seq!['N', s[i + 1]] + spec_reduce(
                        s,
                        i + 2,
                        UebMode::Numeric,
                        UebDuration::Word,
                        capw,
                        false,
                        run,
                        sm,
                        sd,
                    )
                } else {
                    seq!['N'] + spec_reduce(s, i + 1, UebMode::Numeric, UebDuration::Word, capw, false, run, sm, sd)
                }
            } else if ch == 'W' || ch == '𝐖' {
                if sd != UebDuration::Passage {
                    seq![ch] + spec_reduce(
                        s,
                        i + 1,
                        UebMode::Grade2,
                        UebDuration::Symbol,
                        capw,
                        false,
                        run,
                        sm,
                        sd,
                    )
                } else {
                    seq![ch] + spec_reduce(s, i + 1, UebMode::Grade1, dur, capw, false, run, sm, sd)
                }
            } else {
                let m2 = if dur == UebDuration::Symbol && !is_letter_prefix(ch) {
                    sm
                } else {
                    UebMode::Grade1
                };
                seq![ch] + spec_reduce(s, i + 1, m2, dur, capw, false, run, sm, sd)
            }
        }),
{
    reveal(spec_reduce);
}

/// Entering grade 2 resets the capital-word flag.
pub proof fn lemma_reduce_g2_entry(
    s: Seq<char>,
    i: int,
    dur: UebDuration,
    capw: bool,
    run: Seq<char>,
    sm: UebMode,
    sd: UebDuration,
)
    ensures
        spec_reduce(s, i, UebMode::Grade2, dur, capw, false, run, sm, sd) == spec_reduce(
            s,
            i,
            UebMode::Grade2,
            dur,
            false,
            true,
            run,
            sm,
            sd,
        ),
{
    reveal(spec_reduce);
}

pub proof fn lemma_reduce_g2_letter(
    s: Seq<char>,
    i: int,
    dur: UebDuration,
    capw: bool,
    run: Seq<char>,
    sm: UebMode,
    sd: UebDuration,
)
    requires
        0 <= i < s.len(),
        s[i] == 'L',
    ensures
        spec_reduce(s, i, UebMode::Grade2, dur, capw, true, run, sm, sd) == ({
            let one: Seq<char> = if sa_one(s, i) {
                seq!['1']
            } else {
                Seq::empty()
            };
            let run2 = run + one + s.subrange(i, sa_end(s, i));
            if sa_one(s, i) {
                flush_run(run2, capw) + spec_reduce(
                    s,
                    sa_end(s, i),
                    UebMode::Grade1,
                    dur,
                    capw,
                    true,
                    Seq::empty(),
                    sm,
                    sd,
                )
            } else {
                spec_reduce(s, sa_end(s, i), UebMode::Grade2, dur, capw, true, run2, sm, sd)
            }
        }),
{
    reveal(spec_reduce);
}

pub proof fn lemma_reduce_g2_cap_pair(
    s: Seq<char>,
    i: int,
    dur: UebDuration,
    capw: bool,
    run: Seq<char>,
    sm: UebMode,
    sd: UebDuration,
)
    requires
        0 <= i < s.len(),
        s[i] == 'C',
        i + 1 < s.len() && s[i + 1] == 'C',
    ensures
        spec_reduce(s, i, UebMode::Grade2, dur, capw, true, run, sm, sd) == spec_reduce(
            s,
            i + 1,
            UebMode::Grade2,
            dur,
            true,
            true,
            run,
            sm,
            sd,
        ),
{
    reveal(spec_reduce);
}

pub proof fn lemma_reduce_g2_cap_letter(
    s: Seq<char>,
    i: int,
    dur: UebDuration,
    capw: bool,
    run: Seq<char>,
    sm: UebMode,
    sd: UebDuration,
)
    requires
        0 <= i < s.len(),
        s[i] == 'C',
        !(i + 1 < s.len() && s[i + 1] == 'C'),
        ({
            let greek = i + 1 < s.len() && s[i + 1] == 'G';
            let base: int = if greek {
                i + 2
            } else {
                i + 1
            };
            base < s.len() && s[base] == 'L'
        }),
    ensures
        spec_reduce(s, i, UebMode::Grade2, dur, capw, true, run, sm, sd) == ({
            let greek = i + 1 < s.len() && s[i + 1] == 'G';
            let base: int = if greek {
                i + 2
            } else {
                i + 1
            };
            let one: Seq<char> = if sa_one(s, base) {
                seq!['1']
            } else {
                Seq::empty()
            };
            let extra: Seq<char> = if capw {
                seq!['C']
            } else {
                Seq::empty()
            };
            let lead: Seq<char> = if greek {
                seq!['C']
            } else {
                Seq::empty()
            };
            let run2: Seq<char> = (if greek {
                seq!['G']
            } else {
                seq!['C']
            }) + s.subrange(base, sa_end(s, base));
            let emitted = run + one + extra + lead;
            if sa_one(s, base) {
                emitted + flush_run(run2, capw) + spec_reduce(
                    s,
                    sa_end(s, base),
                    UebMode::Grade1,
                    dur,
                    capw,
                    true,
                    Seq::empty(),
                    sm,
                    sd,
                )
            } else {
                emitted + spec_reduce(s, sa_end(s, base), UebMode::Grade2, dur, capw, true, run2, sm, sd)
            }
        }),
{
    reveal(spec_reduce);
}

pub proof fn lemma_reduce_g2_one(
    s: Seq<char>,
    i: int,
    dur: UebDuration,
    capw: bool,
    run: Seq<char>,
    sm: UebMode,
    sd: UebDuration,
)
    requires
        0 <= i < s.len(),
        s[i] == '1' || s[i] == '𝟙',
        s[i] != 'L' && s[i] != 'C',
    ensures
        spec_reduce(s, i, UebMode::Grade2, dur, capw, true, run, sm, sd) == ({
            let ch = s[i];
            let d2 = if ch == '1' {
                UebDuration::Symbol
            } else {
                UebDuration::Word
            };
            if run.len() == 0 {
                seq![ch] + spec_reduce(s, i + 1, UebMode::Grade1, d2, capw, true, run, sm, sd)
            } else {
                flush_run(run + seq![ch], capw) + spec_reduce(
                    s,
                    i + 1,
                    UebMode::Grade1,
                    d2,
                    capw,
                    true,
                    Seq::empty(),
                    sm,
                    sd,
                )
            }
        }),
{
    reveal(spec_reduce);
}

pub proof fn lemma_reduce_g2_number(
    s: Seq<char>,
    i: int,
    dur: UebDuration,
    capw: bool,
    run: Seq<char>,
    sm: UebMode,
    sd: UebDuration,
)
    requires
        0 <= i < s.len(),
        s[i] == 'N',
    ensures
        spec_reduce(s, i, UebMode::Grade2, dur, capw, true, run, sm, sd) == ({
            let pair: Seq<char> = if i + 1 < s.len() {
                seq!['N', s[i + 1]]
            } else {
                seq!['N']
            };
            let i2: int = if i + 1 < s.len() {
                i + 2
            } else {
                i + 1
            };
            if run.len() == 0 {
                pair + spec_reduce(s, i2, UebMode::Numeric, UebDuration::Word, capw, true, run, sm, sd)
            } else {
                flush_run(run + pair, capw) + spec_reduce(
                    s,
                    i2,
                    UebMode::Numeric,
                    UebDuration::Word,
                    capw,
                    true,
                    Seq::empty(),
                    sm,
                    sd,
                )
            }
        }),
{
    reveal(spec_reduce);
}

pub proof fn lemma_reduce_g2_other(
    s: Seq<char>,
    i: int,
    dur: UebDuration,
    capw: bool,
    run: Seq<char>,
    sm: UebMode,
    sd: UebDuration,
)
    requires
        0 <= i < s.len(),
        s[i] != 'L',
        s[i] != '1' && s[i] != '𝟙',
        s[i] != 'N',
        s[i] == 'C' ==> !(i + 1 < s.len() && s[i + 1] == 'C') && !({
            let greek = i + 1 < s.len() && s[i + 1] == 'G';
            let base: int = if greek {
                i + 2
            } else {
                i + 1
            };
            base < s.len() && s[base] == 'L'
        }),
    ensures
        spec_reduce(s, i, UebMode::Grade2, dur, capw, true, run, sm, sd) == ({
            let ch = s[i];
            let capw3 = if run.len() > 0 {
                false
            } else {
                capw
            };
            let capw4 = if !is_left_intervening(ch) {
                false
            } else {
                capw3
            };
            flush_run(run, capw) + seq![ch] + spec_reduce(
                s,
                i + 1,
                UebMode::Grade2,
                dur,
                capw4,
                true,
                Seq::empty(),
                sm,
                sd,
            )
        }),
{
    reveal(spec_reduce);
}

/// Standing-alone data with the run end clamped to the stream, usable
/// at any letter position.
fn sa_parts(v: &Vec<char>, i: usize) -> (r: (bool, usize, usize))
    requires
        i < v@.len(),
    ensures
        r.0 == spec_stands_alone(v@, i as int).0,
        r.1 as int == sa_end(v@, i as int),
        r.2 as int == spec_stands_alone(v@, i as int).2,
        i < r.1 <= v@.len(),
{
    let n = v.len();
    proof {
        lemma_sa_end_bounds(v@, i as int);
    }
    if n - i >= 2 {
        let sa = stands_alone(v, i);
        proof {
            lemma_right_alone_bounds(v@, i as int + 2, false, 1);
        }
        (sa.0, sa.1, sa.2)
    } else {
        let la = left_alone_at(v, i);
        if la {
            proof {
                assert(right_alone(v@, i as int + 2, false, 1) == (true, 1int, v@.len() as int));
            }
            (true, n, 1)
        } else {
            (false, n, 0)
        }
    }
}

/// Whether the letter at `i` is owed a grade-1 indicator, and the letter
/// prefix handed to the shortform test.
fn sa_one_at(v: &Vec<char>, i: usize) -> (r: bool)
    requires
        i < v@.len(),
    ensures
        r == sa_one(v@, i as int),
{
    let sa = sa_parts(v, i);
    if !sa.0 {
        return false;
    }
    if sa.2 == 1 {
        return true;
    }
    let rm_len = sa.1 - i;
    let plen = if sa.2 <= rm_len / 2 {
        sa.2 + sa.2
    } else {
        rm_len
    };
    let mut prefix: Vec<char> = Vec::new();
    crate::strutil::push_range(&mut prefix, v, i, i + plen);
    proof {
        assert(prefix@ =~= sa_prefix(v@, i as int));
    }
    is_short_form(&prefix)
}

/// Flush the pending letter run into the output, contracted unless a
/// capital word is open, and clear it.
fn flush_into(out: &mut Vec<char>, run: &mut Vec<char>, capw: bool)
    ensures
        final(out)@ == old(out)@ + flush_run(old(run)@, capw),
        final(run)@ == Seq::<char>::empty(),
{
    if run.len() > 0 {
        if capw {
            crate::strutil::push_all(out, run);
        } else {
            let contracted = handle_contractions(run);
            crate::strutil::push_all(out, &contracted);
        }
    }
    *run = Vec::new();
}

/// The grade-2 letter arm.
#[verifier::rlimit(100)]
#[verifier::spinoff_prover]
fn g2_step_letter(
    v: &Vec<char>,
    i: usize,
    dur: UebDuration,
    capw: bool,
    run: &mut Vec<char>,
    out: &mut Vec<char>,
    sm: UebMode,
    sd: UebDuration,
) -> (r: (usize, UebMode, UebDuration, bool))
    requires
        i < v@.len(),
        v@[i as int] == 'L',
    ensures
        old(out)@ + spec_reduce(v@, i as int, UebMode::Grade2, dur, capw, true, old(run)@, sm, sd)
            == final(out)@ + spec_reduce(
            v@,
            r.0 as int,
            r.1,
            r.2,
            r.3,
            true,
            final(run)@,
            sm,
            sd,
        ),
        i < r.0 <= v@.len(),
{
    let ghost pre = spec_reduce(v@, i as int, UebMode::Grade2, dur, capw, true, run@, sm, sd);
    let ghost run0 = run@;
        let one = sa_one_at(v, i);
        let sa = sa_parts(v, i);
        if one {
            run.push('1');
        }
        crate::strutil::push_range(run, v, i, sa.1);
        let ghost rf = run@;
        if one {
            proof {
                assert(rf =~= run0 + seq!['1'] + v@.subrange(i as int, sa.1 as int));
            }
            flush_into(out, run, capw);
            proof {
                lemma_reduce_g2_letter(v@, i as int, dur, capw, run0, sm, sd);
                assert(rf == run0 + seq!['1'] + v@.subrange(i as int, sa_end(v@, i as int)));
                assert(old(out)@ + pre =~= out@ + spec_reduce(
                    v@,
                    sa.1 as int,
                    UebMode::Grade1,
                    dur,
                    capw,
                    true,
                    run@,
                    sm,
                    sd,
                ));
            }
            (sa.1, UebMode::Grade1, dur, capw)
        } else {
            proof {
                lemma_reduce_g2_letter(v@, i as int, dur, capw, run0, sm, sd);
                assert(rf =~= run0 + v@.subrange(i as int, sa_end(v@, i as int)));
                assert(old(out)@ + pre =~= out@ + spec_reduce(
                    v@,
                    sa.1 as int,
                    UebMode::Grade2,
                    dur,
                    capw,
                    true,
                    run@,
                    sm,
                    sd,
                ));
            }
            (sa.1, UebMode::Grade2, dur, capw)
        }
}

/// The grade-2 capitalised-letter arm.
#[verifier::rlimit(100)]
#[verifier::spinoff_prover]
fn g2_step_cap_letter(
    v: &Vec<char>,
    i: usize,
    dur: UebDuration,
    capw: bool,
    run: &mut Vec<char>,
    out: &mut Vec<char>,
    sm: UebMode,
    sd: UebDuration,
) -> (r: (usize, UebMode, UebDuration, bool))
    requires
        i < v@.len(),
        v@[i as int] == 'C',
        !(i + 1 < v@.len() && v@[i as int + 1] == 'C'),
        ({
            let greek = i + 1 < v@.len() && v@[i as int + 1] == 'G';
            let base: int = if greek {
                i + 2
            } else {
                i + 1
            };
            base < v@.len() && v@[base] == 'L'
        }),
    ensures
        old(out)@ + spec_reduce(v@, i as int, UebMode::Grade2, dur, capw, true, old(run)@, sm, sd)
            == final(out)@ + spec_reduce(
            v@,
            r.0 as int,
            r.1,
            r.2,
            r.3,
            true,
            final(run)@,
            sm,
            sd,
        ),
        i < r.0 <= v@.len(),
{
    let n = v.len();
    let ghost pre = spec_reduce(v@, i as int, UebMode::Grade2, dur, capw, true, run@, sm, sd);
    let ghost run0 = run@;
        let greek = i + 1 < n && v[i + 1] == 'G';
        let base = if greek {
            i + 2
        } else {
            i + 1
        };
        let one = sa_one_at(v, base);
        let sa = sa_parts(v, base);
        crate::strutil::push_all(out, run);
        *run = Vec::new();
        if one {
            out.push('1');
        }
        if capw {
            out.push('C');
        }
        if greek {
            out.push('C');
            run.push('G');
        } else {
            run.push('C');
        }
        crate::strutil::push_range(run, v, base, sa.1);
        let ghost rf = run@;
        proof {
            assert(rf =~= (if greek {
                seq!['G']
            } else {
                seq!['C']
            }) + v@.subrange(base as int, sa.1 as int));
        }
        if one {
            flush_into(out, run, capw);
            proof {
                lemma_reduce_g2_cap_letter(v@, i as int, dur, capw, run0, sm, sd);
                assert(old(out)@ + pre =~= out@ + spec_reduce(
                    v@,
                    sa.1 as int,
                    UebMode::Grade1,
                    dur,
                    capw,
                    true,
                    run@,
                    sm,
                    sd,
                ));
            }
            (sa.1, UebMode::Grade1, dur, capw)
        } else {
            proof {
                lemma_reduce_g2_cap_letter(v@, i as int, dur, capw, run0, sm, sd);
                assert(old(out)@ + pre =~= out@ + spec_reduce(
                    v@,
                    sa.1 as int,
                    UebMode::Grade2,
                    dur,
                    capw,
                    true,
                    run@,
                    sm,
                    sd,
                ));
            }
            (sa.1, UebMode::Grade2, dur, capw)
        }
}

/// One grade-2 step of the mode reducer: handles the character at `i`,
/// returning the next position, mode and duration, and the capital-word
/// flag.
#[verifier::rlimit(100)]
#[verifier::spinoff_prover]
fn g2_step(
    v: &Vec<char>,
    i: usize,
    dur: UebDuration,
    capw: bool,
    run: &mut Vec<char>,
    out: &mut Vec<char>,
    sm: UebMode,
    sd: UebDuration,
) -> (r: (usize, UebMode, UebDuration, bool))
    requires
        i < v@.len(),
    ensures
        old(out)@ + spec_reduce(v@, i as int, UebMode::Grade2, dur, capw, true, old(run)@, sm, sd)
            == final(out)@ + spec_reduce(
            v@,
            r.0 as int,
            r.1,
            r.2,
            r.3,
            true,
            final(run)@,
            sm,
            sd,
        ),
        i < r.0 <= v@.len(),
{
    let n = v.len();
    let ch = v[i];
    let ghost pre = spec_reduce(v@, i as int, UebMode::Grade2, dur, capw, true, run@, sm, sd);
    let ghost run0 = run@;
    let is_cap_pair = ch == 'C' && i + 1 < n && v[i + 1] == 'C';
    let cap_letter = if ch == 'C' && !is_cap_pair {
        let greek = i + 1 < n && v[i + 1] == 'G';
        let base = if greek {
            i + 2
        } else {
            i + 1
        };
        base < n && v[base] == 'L'
    } else {
        false
    };
    if ch == 'L' {
        let st = g2_step_letter(v, i, dur, capw, run, out, sm, sd);
        st
    } else if is_cap_pair {
        proof {
            lemma_reduce_g2_cap_pair(v@, i as int, dur, capw, run0, sm, sd);
        }
        (i + 1, UebMode::Grade2, dur, true)
    } else if cap_letter {
        let st = g2_step_cap_letter(v, i, dur, capw, run, out, sm, sd);
        st
    } else if ch == '1' || ch == '𝟙' {
        let d2 = if ch == '1' {
            UebDuration::Symbol
        } else {
            UebDuration::Word
        };
        if run.len() == 0 {
            out.push(ch);
        } else {
            run.push(ch);
            proof {
                assert(run@ =~= run0 + seq![ch]);
            }
            flush_into(out, run, capw);
        }
        proof {
            lemma_reduce_g2_one(v@, i as int, dur, capw, run0, sm, sd);
            assert(old(out)@ + pre =~= out@ + spec_reduce(
                v@,
                i as int + 1,
                UebMode::Grade1,
                d2,
                capw,
                true,
                run@,
                sm,
                sd,
            ));
        }
        (i + 1, UebMode::Grade1, d2, capw)
    } else if ch == 'N' {
        let has_body = i + 1 < n;
        let i2 = if has_body {
            i + 2
        } else {
            i + 1
        };
        if run.len() == 0 {
            out.push('N');
            if has_body {
                out.push(v[i + 1]);
            }
        } else {
            run.push('N');
            if has_body {
                run.push(v[i + 1]);
            }
            proof {
                assert(run@ =~= run0 + (if i + 1 < v@.len() {
                    seq!['N', v@[i as int + 1]]
                } else {
                    seq!['N']
                }));
            }
            flush_into(out, run, capw);
        }
        proof {
            lemma_reduce_g2_number(v@, i as int, dur, capw, run0, sm, sd);
            assert(old(out)@ + pre =~= out@ + spec_reduce(
                v@,
                i2 as int,
                UebMode::Numeric,
                UebDuration::Word,
                capw,
                true,
                run@,
                sm,
                sd,
            ));
        }
        (i2, UebMode::Numeric, UebDuration::Word, capw)
    } else {
        let had_run = run.len() > 0;
        flush_into(out, run, capw);
        out.push(ch);
        let capw4 = if !left_intervening(ch) {
            false
        } else if had_run {
            false
        } else {
            capw
        };
        proof {
            lemma_reduce_g2_other(v@, i as int, dur, capw, run0, sm, sd);
            assert(old(out)@ + pre =~= out@ + spec_reduce(
                v@,
                i as int + 1,
                UebMode::Grade2,
                dur,
                capw4,
                true,
                run@,
                sm,
                sd,
            ));
        }
        (i + 1, UebMode::Grade2, dur, capw4)
    }
}

/// The mode reducer over a segment, starting in the given mode and
/// duration.
#[verifier::rlimit(100)]
#[verifier::spinoff_prover]
pub fn remove_unneeded_mode_changes(v: &Vec<char>, start_mode: UebMode, start_dur: UebDuration) -> (r: Vec<char>)
    ensures
        r@ == spec_reduce(
            v@,
            0,
            start_mode,
            start_dur,
            false,
            false,
            Seq::empty(),
            start_mode,
            start_dur,
        ),
{
    let n = v.len();
    let mut out: Vec<char> = Vec::new();
    let mut run: Vec<char> = Vec::new();
    let mut mode = start_mode;
    let mut dur = start_dur;
    let mut capw = false;
    let mut ing2 = false;
    let mut i: usize = 0;
    proof {
        assert(out@ + spec_reduce(
            v@,
            0,
            start_mode,
            start_dur,
            false,
            false,
            Seq::empty(),
            start_mode,
            start_dur,
        ) =~= spec_reduce(
            v@,
            0,
            start_mode,
            start_dur,
            false,
            false,
            Seq::empty(),
            start_mode,
            start_dur,
        ));
    }
    while i < n
        invariant
            i <= n == v@.len(),
            spec_reduce(v@, 0, start_mode, start_dur, false, false, Seq::empty(), start_mode, start_dur)
                == out@ + spec_reduce(
                v@,
                i as int,
                mode,
                dur,
                capw,
                ing2,
                run@,
                start_mode,
                start_dur,
            ),
        decreases n - i,
    {
        let ghost pre = spec_reduce(
            v@,
            i as int,
            mode,
            dur,
            capw,
            ing2,
            run@,
            start_mode,
            start_dur,
        );
        let ghost out0 = out@;
        let ch = v[i];
        if mode == UebMode::Numeric {
            proof {
                lemma_reduce_numeric(
                    v@,
                    i as int,
                    dur,
                    capw,
                    ing2,
                    run@,
                    start_mode,
                    start_dur,
                );
            }
            ing2 = false;
            if ch == 'L' {
                if i + 1 < n && crate::cells::is_letter_number(
                    crate::cells::unhighlight(v[i + 1]),
                ) {
                    out.push('1');
                }
                out.push('L');
                i = i + 1;
                mode = UebMode::Grade1;
            } else if ch == '1' || ch == '𝟙' {
                if start_dur == UebDuration::Passage {
                    dur = UebDuration::Passage;
                }
                i = i + 1;
                mode = UebMode::Grade1;
            } else if ch == '#' {
                if n - i > 2 && v[i + 1] == 'L' && crate::cells::is_letter_number(
                    crate::cells::unhighlight(v[i + 2]),
                ) {
                    out.push('1');
                }
                i = i + 1;
                mode = UebMode::Grade1;
            } else if ch == 'N' {
                if i + 1 < n {
                    out.push(v[i + 1]);
                    i = i + 2;
                } else {
                    i = i + 1;
                }
            } else {
                out.push(ch);
                mode = if seg_break(ch) {
                    start_mode
                } else {
                    UebMode::Grade1
                };
                i = i + 1;
            }
        } else if mode == UebMode::Grade1 {
            proof {
                lemma_reduce_grade1(
                    v@,
                    i as int,
                    dur,
                    capw,
                    ing2,
                    run@,
                    start_mode,
                    start_dur,
                );
            }
            ing2 = false;
            if ch == 'L' {
                out.push('L');
                i = i + 1;
            } else if ch == '1' || ch == '𝟙' {
                if ch == '𝟙' {
                    dur = UebDuration::Word;
                }
                i = i + 1;
            } else if ch == 'N' {
                out.push('N');
                if i + 1 < n {
                    out.push(v[i + 1]);
                    i = i + 2;
                } else {
                    i = i + 1;
                }
                mode = UebMode::Numeric;
                dur = UebDuration::Word;
            } else if ch == 'W' || ch == '𝐖' {
                out.push(ch);
                i = i + 1;
                if start_dur != UebDuration::Passage {
                    dur = UebDuration::Symbol;
                    mode = UebMode::Grade2;
                }
            } else {
                out.push(ch);
                i = i + 1;
                if dur == UebDuration::Symbol && !letter_prefix(ch) {
                    mode = start_mode;
                }
            }
        } else {
            if !ing2 {
                proof {
                    lemma_reduce_g2_entry(
                        v@,
                        i as int,
                        dur,
                        capw,
                        run@,
                        start_mode,
                        start_dur,
                    );
                }
                capw = false;
                ing2 = true;
            }
            let st = g2_step(v, i, dur, capw, &mut run, &mut out, start_mode, start_dur);
            i = st.0;
            mode = st.1;
            dur = st.2;
            capw = st.3;
        }
        proof {
            assert(spec_reduce(
                v@,
                0,
                start_mode,
                start_dur,
                false,
                false,
                Seq::empty(),
                start_mode,
                start_dur,
            ) =~= out@ + spec_reduce(
                v@,
                i as int,
                mode,
                dur,
                capw,
                ing2,
                run@,
                start_mode,
                start_dur,
            ));
        }
    }
    proof {
        lemma_reduce_end(
            v@,
            i as int,
            mode,
            dur,
            capw,
            ing2,
            run@,
            start_mode,
            start_dur,
        );
    }
    if mode == UebMode::Grade2 && run.len() > 0 {
        let contracted = handle_contractions(&run);
        crate::strutil::push_all(&mut out, &contracted);
    } else {
        crate::strutil::push_all(&mut out, &run);
    }
    proof {
        assert(out@ =~= spec_reduce(
            v@,
            0,
            start_mode,
            start_dur,
            false,
            false,
            Seq::empty(),
            start_mode,
            start_dur,
        ));
    }
    out
}

/// Scanning backward over digits, numeric separators and spaces: does a
/// number marker govern this position?
pub open spec fn forced_back(s: Seq<char>, j: int) -> bool
    decreases j + 1,
{
    if j < 0 {
        false
    } else {
        let c = s[j];
        if is_letter_number_cell(spec_unhighlight(c)) || c == '.' || c == ',' || c == 'W' || c
            == '𝐖' {
            forced_back(s, j - 1)
        } else {
            c == 'N'
        }
    }
}

/// A grade-1 marker is forced when a letter a-j directly follows a digit.
pub open spec fn spec_forced_grade1(s: Seq<char>, i: int) -> bool {
    if i + 2 < s.len() && is_letter_number_cell(spec_unhighlight(s[i + 2])) {
        forced_back(s, i - 1)
    } else {
        false
    }
}

fn forced_grade1(v: &Vec<char>, i: usize) -> (r: bool)
    requires
        i < v@.len(),
    ensures
        r == spec_forced_grade1(v@, i as int),
{
    let n = v.len();
    if !(n - i > 2 && crate::cells::is_letter_number(crate::cells::unhighlight(v[i + 2]))) {
        return false;
    }
    let mut j = i;
    loop
        invariant
            j <= i < v@.len(),
            i + 2 < v@.len() && is_letter_number_cell(spec_unhighlight(v@[i as int + 2])),
            forced_back(v@, i as int - 1) == forced_back(v@, j as int - 1),
        decreases j,
    {
        if j == 0 {
            return false;
        }
        let c = v[j - 1];
        if crate::cells::is_letter_number(crate::cells::unhighlight(c)) || c == '.' || c == ','
            || c == 'W' || c == '𝐖' {
            j = j - 1;
        } else {
            return c == 'N';
        }
    }
}

/// Letter-prefix indicators skipped when looking for a single letter on
/// the right of a grade-1 marker.
pub open spec fn is_slr_skip(c: char) -> bool {
    c == 'B' || c == 'I' || c == '𝔹' || c == 'S' || c == 'T' || c == 'D' || c == 'C' || c == '𝐶'
        || c == 's' || c == 'w'
}

/// At most one letter follows before anything else does.
pub open spec fn single_letter_right(s: Seq<char>, k: int, count: int) -> bool
    decreases s.len() + 2 - k,
{
    if k < 0 {
        false
    } else if k >= s.len() {
        true
    } else {
        let c = s[k];
        if is_slr_skip(c) {
            single_letter_right(s, k + 1, count)
        } else if c == 'L' {
            if count == 1 {
                false
            } else {
                single_letter_right(s, k + 2, count + 1)
            }
        } else {
            count == 1
        }
    }
}

fn single_letter_right_at(v: &Vec<char>, i: usize) -> (r: bool)
    requires
        i < v@.len(),
    ensures
        r == single_letter_right(v@, i as int + 1, 0),
{
    let n = v.len();
    let mut k = i + 1;
    let mut count: usize = 0;
    loop
        invariant
            k <= n,
            n == v@.len(),
            count <= 1,
            single_letter_right(v@, i as int + 1, 0) == single_letter_right(
                v@,
                k as int,
                count as int,
            ),
        decreases v@.len() + 2 - k,
    {
        if k >= n {
            return true;
        }
        let c = v[k];
        if c == 'B' || c == 'I' || c == '𝔹' || c == 'S' || c == 'T' || c == 'D' || c == 'C' || c
            == '𝐶' || c == 's' || c == 'w' {
            k = k + 1;
        } else if c == 'L' {
            if count == 1 {
                return false;
            }
            count = count + 1;
            let k2 = if n - k >= 2 {
                k + 2
            } else {
                n
            };
            proof {
                assert(single_letter_right(v@, k as int + 2, count as int) == single_letter_right(
                    v@,
                    k2 as int,
                    count as int,
                ));
            }
            k = k2;
        } else {
            return count == 1;
        }
    }
}

/// A marker that does not count as a real character when measuring the
/// first three cells of a grade-2 rendering.
pub open spec fn is_unreal(c: char) -> bool {
    c == '𝐶' || c == 'C' || c == 'L' || c == 'o' || c == 'b' || c == 'c'
}

/// The tail phase of the grade-2 acceptability test: after the first
/// three cells, any free grade-1 marker must sit before a standing-alone
/// single letter, and only one such letter is allowed.
pub open spec fn g2ok_rest(s: Seq<char>, i: int, seen: bool) -> bool
    decreases s.len() - i,
{
    if i < 0 || i >= s.len() {
        true
    } else if s[i] == '1' && !spec_forced_grade1(s, i) {
        if !single_letter_right(s, i + 1, 0) || seen {
            false
        } else {
            g2ok_rest(s, i + 1, true)
        }
    } else {
        g2ok_rest(s, i + 1, seen)
    }
}

/// The head phase: at most one free grade-1 marker within the first
/// three real cells.
pub open spec fn g2ok_first(s: Seq<char>, i: int, n_real: int, found: bool) -> bool
    decreases s.len() - i,
{
    if i < 0 || i >= s.len() {
        true
    } else {
        let c = s[i];
        if c == '1' && !spec_forced_grade1(s, i) {
            if found {
                false
            } else {
                g2ok_first(s, i + 1, n_real, true)
            }
        } else if !is_unreal(c) {
            if n_real == 2 {
                g2ok_rest(s, i + 1, false)
            } else {
                g2ok_first(s, i + 1, n_real + 1, found)
            }
        } else {
            g2ok_first(s, i + 1, n_real, found)
        }
    }
}

/// Is the grade-2 symbol-mode rendering acceptable?
pub open spec fn spec_grade2_ok(s: Seq<char>) -> bool {
    g2ok_first(s, 0, 0, false)
}

pub fn grade2_ok(v: &Vec<char>) -> (r: bool)
    ensures
        r == spec_grade2_ok(v@),
{
    let n = v.len();
    let mut i: usize = 0;
    let mut n_real: usize = 0;
    let mut found = false;
    let mut in_rest = false;
    let mut seen = false;
    loop
        invariant
            i <= n == v@.len(),
            n_real <= 2,
            !in_rest ==> spec_grade2_ok(v@) == g2ok_first(v@, i as int, n_real as int, found),
            in_rest ==> spec_grade2_ok(v@) == g2ok_rest(v@, i as int, seen),
        decreases v@.len() - i,
    {
        if i >= n {
            return true;
        }
        let c = v[i];
        if !in_rest {
            if c == '1' && !forced_grade1(v, i) {
                if found {
                    return false;
                }
                found = true;
            } else if !(c == '𝐶' || c == 'C' || c == 'L' || c == 'o' || c == 'b' || c == 'c') {
                if n_real == 2 {
                    in_rest = true;
                    seen = false;
                } else {
                    n_real = n_real + 1;
                }
            }
        } else {
            if c == '1' && !forced_grade1(v, i) {
                if !single_letter_right_at(v, i) || seen {
                    return false;
                }
                seen = true;
            }
        }
        i = i + 1;
    }
}

/// The count of soft space markers in a rendering.
pub open spec fn count_w(s: Seq<char>, i: int) -> int
    decreases s.len() - i,
{
    if i < 0 || i >= s.len() {
        0
    } else if s[i] == 'W' {
        1 + count_w(s, i + 1)
    } else {
        count_w(s, i + 1)
    }
}

fn has_two_w(v: &Vec<char>) -> (r: bool)
    ensures
        r == (count_w(v@, 0) >= 2),
{
    let mut i: usize = 0;
    let mut cnt: usize = 0;
    while i < v.len()
        invariant
            i <= v@.len(),
            cnt <= i,
            count_w(v@, 0) == cnt + count_w(v@, i as int),
        decreases v@.len() - i,
    {
        if v[i] == 'W' {
            cnt = cnt + 1;
            if cnt == 2 {
                proof {
                    lemma_count_w_nonneg(v@, i as int + 1);
                }
                return true;
            }
        }
        i = i + 1;
    }
    proof {
        lemma_count_w_nonneg(v@, 0);
    }
    cnt >= 2
}

proof fn lemma_count_w_nonneg(s: Seq<char>, i: int)
    ensures
        count_w(s, i) >= 0,
    decreases s.len() - i,
{
    if 0 <= i && i < s.len() {
        lemma_count_w_nonneg(s, i + 1);
    }
}

/// The rendering chosen for one expression segment: grade-2 symbol mode
/// when acceptable, else grade-1 word mode (with its opening cells), or
/// grade-1 passage mode with its wrapper when the segment spans two or
/// more spaces and passage mode differs from word mode.
pub open spec fn spec_pick_start(seg: Seq<char>, only_g1: bool) -> Seq<char> {
    if only_g1 {
        spec_reduce(
            seg,
            0,
            UebMode::Grade1,
            UebDuration::Passage,
            false,
            false,
            Seq::empty(),
            UebMode::Grade1,
            UebDuration::Passage,
        )
    } else {
        let g2 = spec_reduce(
            seg,
            0,
            UebMode::Grade2,
            UebDuration::Symbol,
            false,
            false,
            Seq::empty(),
            UebMode::Grade2,
            UebDuration::Symbol,
        );
        if spec_grade2_ok(g2) {
            g2
        } else {
            let word = spec_reduce(
                seg,
                0,
                UebMode::Grade1,
                UebDuration::Word,
                false,
                false,
                Seq::empty(),
                UebMode::Grade1,
                UebDuration::Word,
            );
            if count_w(word, 0) >= 2 {
                let passage = spec_reduce(
                    seg,
                    0,
                    UebMode::Grade1,
                    UebDuration::Passage,
                    false,
                    false,
                    Seq::empty(),
                    UebMode::Grade1,
                    UebDuration::Passage,
                );
                if passage.len() == 0 || passage == word {
                    seq!['⠰', '⠰'] + word
                } else {
                    seq!['⠰', '⠰', '⠰'] + passage + seq!['⠰', '⠄']
                }
            } else {
                seq!['⠰', '⠰'] + word
            }
        }
    }
}

pub fn pick_start_mode(seg: &Vec<char>, only_g1: bool) -> (r: Vec<char>)
    ensures
        r@ == spec_pick_start(seg@, only_g1),
{
    if only_g1 {
        return remove_unneeded_mode_changes(seg, UebMode::Grade1, UebDuration::Passage);
    }
    let g2 = remove_unneeded_mode_changes(seg, UebMode::Grade2, UebDuration::Symbol);
    if grade2_ok(&g2) {
        return g2;
    }
    let word = remove_unneeded_mode_changes(seg, UebMode::Grade1, UebDuration::Word);
    if has_two_w(&word) {
        let passage = remove_unneeded_mode_changes(seg, UebMode::Grade1, UebDuration::Passage);
        let eq = {
            let a = crate::strutil::from_chars(&passage);
            let b = crate::strutil::from_chars(&word);
            a.eq(&b)
        };
        if passage.len() == 0 || eq {
            let mut out: Vec<char> = Vec::new();
            out.push('⠰');
            out.push('⠰');
            crate::strutil::push_all(&mut out, &word);
            proof {
                assert(out@ =~= spec_pick_start(seg@, only_g1));
            }
            out
        } else {
            let mut out: Vec<char> = Vec::new();
            out.push('⠰');
            out.push('⠰');
            out.push('⠰');
            crate::strutil::push_all(&mut out, &passage);
            out.push('⠰');
            out.push('⠄');
            proof {
                assert(out@ =~= spec_pick_start(seg@, only_g1));
            }
            out
        }
    } else {
        let mut out: Vec<char> = Vec::new();
        out.push('⠰');
        out.push('⠰');
        crate::strutil::push_all(&mut out, &word);
        proof {
            assert(out@ =~= spec_pick_start(seg@, only_g1));
        }
        out
    }
}

/// Per-segment processing: split the stream on hard breaks, choose a
/// start mode for each segment, and join the renderings with soft
/// spaces; the final segment carries no trailing space.
pub open spec fn spec_segjoin(s: Seq<char>, i: int, only_g1: bool) -> Seq<char>
    decreases s.len() - i,
    via spec_segjoin_decreases
{
    if i < 0 || i > s.len() {
        Seq::empty()
    } else {
        let j = first_char_from(s, i, '𝐖');
        if j < s.len() {
            spec_pick_start(s.subrange(i, j), only_g1) + seq!['W'] + spec_segjoin(s, j + 1, only_g1)
        } else {
            spec_pick_start(s.subrange(i, s.len() as int), only_g1)
        }
    }
}

#[via_fn]
proof fn spec_segjoin_decreases(s: Seq<char>, i: int, only_g1: bool) {
    if 0 <= i && i <= s.len() {
        lemma_first_char_bounds(s, i, '𝐖');
    }
}

fn segjoin(v: &Vec<char>, only_g1: bool) -> (r: Vec<char>)
    ensures
        r@ == spec_segjoin(v@, 0, only_g1),
{
    let n = v.len();
    let mut out: Vec<char> = Vec::new();
    let mut i: usize = 0;
    loop
        invariant
            i <= n == v@.len(),
            spec_segjoin(v@, 0, only_g1) == out@ + spec_segjoin(v@, i as int, only_g1),
        decreases n - i,
    {
        let mut j = i;
        while j < n && v[j] != '𝐖'
            invariant
                i <= j <= n == v@.len(),
                first_char_from(v@, i as int, '𝐖') == first_char_from(v@, j as int, '𝐖'),
            decreases n - j,
        {
            j = j + 1;
        }
        let mut seg: Vec<char> = Vec::new();
        crate::strutil::push_range(&mut seg, v, i, j);
        proof {
            assert(seg@ =~= v@.subrange(i as int, j as int));
        }
        let picked = pick_start_mode(&seg, only_g1);
        crate::strutil::push_all(&mut out, &picked);
        if j < n {
            out.push('W');
            i = j + 1;
            proof {
                assert(spec_segjoin(v@, 0, only_g1) =~= out@ + spec_segjoin(
                    v@,
                    i as int,
                    only_g1,
                ));
            }
        } else {
            proof {
                assert(spec_segjoin(v@, 0, only_g1) =~= out@);
            }
            return out;
        }
    }
}

/// A shape terminator directly before a space is dropped.
pub open spec fn spec_tw(s: Seq<char>, i: int) -> Seq<char>
    decreases s.len() - i,
{
    if i < 0 || i >= s.len() {
        Seq::empty()
    } else if s[i] == 't' && i + 1 < s.len() && s[i + 1] == 'W' {
        seq!['W'] + spec_tw(s, i + 2)
    } else {
        seq![s[i]] + spec_tw(s, i + 1)
    }
}

pub fn tw_pass(v: &Vec<char>) -> (r: Vec<char>)
    ensures
        r@ == spec_tw(v@, 0),
{
    let mut out: Vec<char> = Vec::new();
    let mut i: usize = 0;
    while i < v.len()
        invariant
            i <= v@.len(),
            spec_tw(v@, 0) == out@ + spec_tw(v@, i as int),
        decreases v@.len() - i,
    {
        if v[i] == 't' && i + 1 < v.len() && v[i + 1] == 'W' {
            out.push('W');
            i = i + 2;
        } else {
            out.push(v[i]);
            i = i + 1;
        }
        proof {
            assert(spec_tw(v@, 0) =~= out@ + spec_tw(v@, i as int));
        }
    }
    out
}

/// The fixed UEB marker-to-cell substitution; the four transcriber-
/// defined typeforms come from preferences.  Characters outside the
/// marker alphabet pass through unchanged.
pub open spec fn ueb_subst_char(
    c: char,
    ds: Seq<char>,
    ss: Seq<char>,
    fr: Seq<char>,
    gv: Seq<char>,
) -> Seq<char> {
    if c == '𝔹' {
        ds
    } else if c == 'S' {
        ss
    } else if c == 'D' {
        fr
    } else if c == 'V' {
        gv
    } else if c == '1' {
        seq!['⠰']
    } else if c == '𝟙' {
        seq!['⠰', '⠰']
    } else if c == 'B' {
        seq!['⠘']
    } else if c == 'T' {
        seq!['⠈']
    } else if c == 'I' || c == 'G' {
        seq!['⠨']
    } else if c == 'C' || c == '𝐶' {
        seq!['⠠']
    } else if c == 'N' {
        seq!['⠼']
    } else if c == 's' {
        seq!['⠆']
    } else if c == 'w' || c == ',' {
        seq!['⠂']
    } else if c == 'e' {
        seq!['⠄']
    } else if c == '.' {
        seq!['⠲']
    } else if c == '—' {
        seq!['⠠', '⠤']
    } else if c == '―' {
        seq!['⠐', '⠠', '⠤']
    } else if c == 'W' || c == '𝐖' {
        seq!['⠀']
    } else if c == 'R' || c == 'E' || c == 'H' || c == 'P' || c == 'M' || c == 'L' || c == '𝑐'
        || c == '#' || c == 'o' || c == 'c' || c == 'b' {
        Seq::empty()
    } else {
        seq![c]
    }
}

pub open spec fn spec_ueb_subst(
    s: Seq<char>,
    i: int,
    ds: Seq<char>,
    ss: Seq<char>,
    fr: Seq<char>,
    gv: Seq<char>,
) -> Seq<char>
    decreases s.len() - i,
{
    if i < 0 || i >= s.len() {
        Seq::empty()
    } else {
        ueb_subst_char(s[i], ds, ss, fr, gv) + spec_ueb_subst(s, i + 1, ds, ss, fr, gv)
    }
}

fn push_ueb_subst(
    out: &mut Vec<char>,
    c: char,
    ds: &Vec<char>,
    ss: &Vec<char>,
    fr: &Vec<char>,
    gv: &Vec<char>,
)
    ensures
        final(out)@ == old(out)@ + ueb_subst_char(c, ds@, ss@, fr@, gv@),
{
    if c == '𝔹' {
        crate::strutil::push_all(out, ds);
    } else if c == 'S' {
        crate::strutil::push_all(out, ss);
    } else if c == 'D' {
        crate::strutil::push_all(out, fr);
    } else if c == 'V' {
        crate::strutil::push_all(out, gv);
    } else if c == '1' {
        out.push('⠰');
    } else if c == '𝟙' {
        out.push('⠰');
        out.push('⠰');
    } else if c == 'B' {
        out.push('⠘');
    } else if c == 'T' {
        out.push('⠈');
    } else if c == 'I' || c == 'G' {
        out.push('⠨');
    } else if c == 'C' || c == '𝐶' {
        out.push('⠠');
    } else if c == 'N' {
        out.push('⠼');
    } else if c == 's' {
        out.push('⠆');
    } else if c == 'w' || c == ',' {
        out.push('⠂');
    } else if c == 'e' {
        out.push('⠄');
    } else if c == '.' {
        out.push('⠲');
    } else if c == '—' {
        out.push('⠠');
        out.push('⠤');
    } else if c == '―' {
        out.push('⠐');
        out.push('⠠');
        out.push('⠤');
    } else if c == 'W' || c == '𝐖' {
        out.push('⠀');
    } else if c == 'R' || c == 'E' || c == 'H' || c == 'P' || c == 'M' || c == 'L' || c == '𝑐'
        || c == '#' || c == 'o' || c == 'c' || c == 'b' {
    } else {
        out.push(c);
    }
    proof {
        assert(out@ =~= old(out)@ + ueb_subst_char(c, ds@, ss@, fr@, gv@));
    }
}

pub fn ueb_subst_pass(
    v: &Vec<char>,
    ds: &Vec<char>,
    ss: &Vec<char>,
    fr: &Vec<char>,
    gv: &Vec<char>,
) -> (r: Vec<char>)
    ensures
        r@ == spec_ueb_subst(v@, 0, ds@, ss@, fr@, gv@),
{
    let mut out: Vec<char> = Vec::new();
    let mut i: usize = 0;
    while i < v.len()
        invariant
            i <= v@.len(),
            spec_ueb_subst(v@, 0, ds@, ss@, fr@, gv@) == out@ + spec_ueb_subst(
                v@,
                i as int,
                ds@,
                ss@,
                fr@,
                gv@,
            ),
        decreases v@.len() - i,
    {
        push_ueb_subst(&mut out, v[i], ds, ss, fr, gv);
        i = i + 1;
        proof {
            assert(spec_ueb_subst(v@, 0, ds@, ss@, fr@, gv@) =~= out@ + spec_ueb_subst(
                v@,
                i as int,
                ds@,
                ss@,
                fr@,
                gv@,
            ));
        }
    }
    out
}

/// The whole UEB cleanup pipeline over a character sequence.
pub open spec fn spec_ueb_cleanup(
    s: Seq<char>,
    only_g1: bool,
    ds: Seq<char>,
    ss: Seq<char>,
    fr: Seq<char>,
    gv: Seq<char>,
) -> Seq<char> {
    let t = spec_typeface(s, 0, Seq::empty(), Seq::empty());
    let c = spec_capitals(t, 0, false);
    let j = spec_segjoin(c, 0, only_g1);
    let w = spec_tw(j, 0);
    let b = spec_ueb_subst(w, 0, ds, ss, fr, gv);
    crate::nemeth::spec_collapse_spaces(b, 0)
}

/// UEB cleanup: word-mode conversion for typefaces and capitals,
/// per-segment mode selection, shape-terminator fixing, the final
/// marker substitution, and space collapsing.
pub fn ueb_cleanup(prefs: &crate::TypeformPrefs, start_mode_grade1: bool, raw: &str) -> (r:
    String)
    ensures
        r@ == spec_ueb_cleanup(
            raw@,
            start_mode_grade1,
            prefs.double_struck@,
            prefs.sans_serif@,
            prefs.fraktur@,
            prefs.greek_variant@,
        ),
{
    let v = crate::strutil::to_chars(raw);
    let v = typeface_to_word_mode(&v);
    let v = capitals_to_word_mode(&v);
    let v = segjoin(&v, start_mode_grade1);
    let v = tw_pass(&v);
    let ds = crate::strutil::to_chars(prefs.double_struck.as_str());
    let ss = crate::strutil::to_chars(prefs.sans_serif.as_str());
    let fr = crate::strutil::to_chars(prefs.fraktur.as_str());
    let gv = crate::strutil::to_chars(prefs.greek_variant.as_str());
    let v = ueb_subst_pass(&v, &ds, &ss, &fr, &gv);
    let v = crate::nemeth::collapse_spaces_pass(&v);
    crate::strutil::from_chars(&v)
}

} // verus!
