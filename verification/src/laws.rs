//! The stated properties of the library, proved over the same spec
//! functions that the executable functions are verified against.

use vstd::prelude::*;

use crate::cells::{is_cell, is_highlighted_cell, spec_highlight, spec_unhighlight};
use crate::highlight::{
    BrailleCode, first_hl, last_hl, spec_highlight_braille, spec_move_start, spec_start_shift,
};
use crate::nemeth::{spec_collapse_spaces, spec_nemeth_cleanup, spec_trim_spaces};

verus! {

/// No two adjacent braille spaces.
pub open spec fn no_double_space(s: Seq<char>) -> bool {
    forall|k: int| 0 <= k && k + 1 < s.len() ==> !(#[trigger] s[k] == '⠀' && s[k + 1] == '⠀')
}

/// Space collapsing leaves no run of two spaces, and its first
/// character can only be a space when the input position held one.
proof fn lemma_collapse_no_double(s: Seq<char>, i: int)
    requires
        0 <= i,
    ensures
        no_double_space(spec_collapse_spaces(s, i)),
        spec_collapse_spaces(s, i).len() > 0 && spec_collapse_spaces(s, i)[0] == '⠀' ==> i
            < s.len() && s[i] == '⠀',
    decreases s.len() - i,
{
    if i < s.len() {
        lemma_collapse_no_double(s, i + 1);
        let r = spec_collapse_spaces(s, i);
        let rest = spec_collapse_spaces(s, i + 1);
        if !(s[i] == '⠀' && i + 1 < s.len() && s[i + 1] == '⠀') {
            assert(r == seq![s[i]] + rest);
            assert forall|k: int| 0 <= k && k + 1 < r.len() implies !(#[trigger] r[k] == '⠀' && r[k
                + 1] == '⠀') by {
                if k == 0 {
                    if s[i] == '⠀' {
                        assert(rest.len() > 0 && r[1] == rest[0]);
                    }
                } else {
                    assert(r[k] == rest[k - 1] && r[k + 1] == rest[k]);
                }
            }
        }
    }
}

/// After any of the four cleanups, no run of braille spaces has length
/// more than one.
pub proof fn lemma_nemeth_no_double_space(raw: Seq<char>)
    ensures
        no_double_space(spec_nemeth_cleanup(raw)),
{
    lemma_collapse_no_double(
        spec_trim_spaces(
            crate::nemeth::spec_nemeth_subst(
                crate::nemeth::spec_punct_38(
                    crate::nemeth::spec_level_baseline(
                        crate::nemeth::spec_level_ind(
                            crate::nemeth::spec_num_ind_9b(
                                crate::nemeth::spec_num_ind_9f(
                                    crate::nemeth::spec_num_ind_9e_shape(
                                        crate::nemeth::spec_num_ind_9e(
                                            crate::nemeth::spec_num_ind_9d(
                                                crate::nemeth::spec_num_ind_9c(
                                                    crate::nemeth::spec_num_ind_9a(
                                                        crate::nemeth::spec_multi_177_5(
                                                            crate::nemeth::spec_multi_177_3(
                                                                crate::nemeth::spec_multi_177_2(
                                                                    crate::nemeth::spec_double_space(
                                                                        crate::nemeth::spec_lone_decimal(
                                                                            crate::nemeth::spec_space_after_punct(
                                                                                crate::nemeth::spec_space_before_punct(
                                                                                    crate::nemeth::spec_space_after_ind(
                                                                                        crate::nemeth::spec_space_before_ind(
                                                                                            crate::nemeth::spec_enclosed_list(
                                                                                                crate::nemeth::spec_eli(raw, 0),
                                                                                                0,
                                                                                            ),
                                                                                            0,
                                                                                        ),
                                                                                        0,
                                                                                    ),
                                                                                    0,
                                                                                ),
                                                                                0,
                                                                            ),
                                                                            0,
                                                                        ),
                                                                        0,
                                                                    ),
                                                                    0,
                                                                ),
                                                                0,
                                                            ),
                                                            0,
                                                        ),
                                                        0,
                                                    ),
                                                    0,
                                                ),
                                                0,
                                            ),
                                        ),
                                    ),
                                ),
                                0,
                            ),
                            0,
                        ),
                        0,
                    ),
                    0,
                ),
                0,
            ),
        ),
        0,
    );
}

pub proof fn lemma_ueb_no_double_space(
    raw: Seq<char>,
    only_g1: bool,
    ds: Seq<char>,
    ss: Seq<char>,
    fr: Seq<char>,
    gv: Seq<char>,
)
    ensures
        no_double_space(crate::ueb::spec_ueb_cleanup(raw, only_g1, ds, ss, fr, gv)),
{
    let t = crate::ueb::spec_typeface(raw, 0, Seq::empty(), Seq::empty());
    let c = crate::ueb::spec_capitals(t, 0, false);
    let j = crate::ueb::spec_segjoin(c, 0, only_g1);
    let w = crate::ueb::spec_tw(j, 0);
    let b = crate::ueb::spec_ueb_subst(w, 0, ds, ss, fr, gv);
    lemma_collapse_no_double(b, 0);
}

pub proof fn lemma_vietnam_no_double_space(
    raw: Seq<char>,
    ds: Seq<char>,
    ss: Seq<char>,
    fr: Seq<char>,
    gv: Seq<char>,
)
    ensures
        no_double_space(crate::vietnam::spec_vietnam_cleanup(raw, ds, ss, fr, gv)),
{
    let t = crate::ueb::spec_typeface(raw, 0, Seq::empty(), Seq::empty());
    let c = crate::ueb::spec_capitals(t, 0, false);
    let w = crate::ueb::spec_tw(c, 0);
    let g = crate::vietnam::spec_replace_pair(w, 0, 'C', 'G', seq!['⠸']);
    let g2 = crate::vietnam::spec_replace_pair(g, 0, 'C', 'C', seq!['⠸']);
    let red = crate::ueb::spec_reduce(
        g2,
        0,
        crate::ueb::UebMode::Grade1,
        crate::ueb::UebDuration::Passage,
        false,
        false,
        Seq::empty(),
        crate::ueb::UebMode::Grade1,
        crate::ueb::UebDuration::Passage,
    );
    let b = crate::vietnam::spec_vietnam_subst(red, 0, ds, ss, fr, gv);
    lemma_collapse_no_double(b, 0);
}

pub proof fn lemma_cmu_no_double_space(raw: Seq<char>)
    ensures
        no_double_space(crate::cmu::spec_cmu_cleanup(raw)),
{
    let g = crate::vietnam::spec_replace_pair(raw, 0, 'C', 'G', seq!['⠘']);
    let bb = crate::vietnam::spec_replace_pair(g, 0, '𝔹', 'C', seq!['⠩']);
    let dc = crate::vietnam::spec_replace_pair(bb, 0, 'D', 'C', seq!['⠰']);
    let red = crate::ueb::spec_reduce(
        dc,
        0,
        crate::ueb::UebMode::Grade1,
        crate::ueb::UebDuration::Passage,
        false,
        false,
        Seq::empty(),
        crate::ueb::UebMode::Grade1,
        crate::ueb::UebDuration::Passage,
    );
    let nn = crate::vietnam::spec_replace_pair(red, 0, '𝑁', 'N', Seq::empty());
    let b = crate::cmu::spec_cmu_subst(nn, 0);
    let w = crate::cmu::spec_cond_space(b, 0);
    lemma_collapse_no_double(w, 0);
}

/// The count of highlighted cells.
pub open spec fn count_hl(s: Seq<char>, i: int) -> int
    decreases s.len() - i,
{
    if i < 0 || i >= s.len() {
        0
    } else if is_highlighted_cell(s[i]) {
        1 + count_hl(s, i + 1)
    } else {
        count_hl(s, i + 1)
    }
}

proof fn lemma_count_hl_update(s: Seq<char>, j: int, c: char, i: int)
    requires
        0 <= j < s.len(),
        0 <= i,
    ensures
        count_hl(s.update(j, c), i) == count_hl(s, i) + (if i <= j {
            (if is_highlighted_cell(c) {
                1int
            } else {
                0int
            }) - (if is_highlighted_cell(s[j]) {
                1int
            } else {
                0int
            })
        } else {
            0int
        }),
    decreases s.len() - i,
{
    if i < s.len() {
        lemma_count_hl_update(s, j, c, i + 1);
    }
}

proof fn lemma_count_hl_pointwise(a: Seq<char>, b: Seq<char>, i: int)
    requires
        a.len() == b.len(),
        0 <= i,
        forall|k: int| i <= k < a.len() && is_highlighted_cell(a[k]) ==> is_highlighted_cell(b[k]),
    ensures
        count_hl(a, i) <= count_hl(b, i),
    decreases a.len() - i,
{
    if i < a.len() {
        lemma_count_hl_pointwise(a, b, i + 1);
    }
}

/// Positions before the first highlighted cell are not highlighted,
/// and the first one is when it lies in the stream.
proof fn lemma_first_hl_props(s: Seq<char>, i: int)
    requires
        0 <= i <= s.len(),
    ensures
        i <= first_hl(s, i) <= s.len(),
        forall|k: int| i <= k < first_hl(s, i) ==> !is_highlighted_cell(s[k]),
        first_hl(s, i) < s.len() ==> is_highlighted_cell(s[first_hl(s, i)]),
    decreases s.len() - i,
{
    if i < s.len() && !is_highlighted_cell(s[i]) {
        lemma_first_hl_props(s, i + 1);
    }
}

/// The last highlighted cell is one, and nothing after it is.
proof fn lemma_last_hl_props(s: Seq<char>, j: int)
    requires
        0 <= j <= s.len(),
    ensures
        last_hl(s, j) < j,
        last_hl(s, j) >= 0 ==> is_highlighted_cell(s[last_hl(s, j)]),
        forall|k: int| last_hl(s, j) < k < j ==> !is_highlighted_cell(s[k]),
    decreases j,
{
    if j > 0 && !is_highlighted_cell(s[j - 1]) {
        lemma_last_hl_props(s, j - 1);
    }
}


/// The UEB indicator count is non-negative.
proof fn lemma_start_ueb_nonneg(s: Seq<char>, idx: int, lo: int)
    requires
        lo <= idx,
    ensures
        0 <= crate::highlight::spec_start_ueb(s, idx, lo),
    decreases idx - lo,
{
    if idx > lo {
        let c = s[idx - 1];
        if crate::highlight::is_ueb_prefix_cell(c) {
            lemma_start_ueb_nonneg(s, idx - 1, lo);
        } else if c == '⠆' {
            if idx - 2 >= lo && crate::highlight::is_ueb_typeform_prefix(s[idx - 2]) {
                lemma_start_ueb_nonneg(s, idx - 2, lo);
            } else if idx - 3 >= lo && s[idx - 2] == '⠼' && (crate::highlight::is_ueb_typeform_prefix(
                s[idx - 3],
            ) || s[idx - 3] == '⠐') {
                lemma_start_ueb_nonneg(s, idx - 3, lo);
            }
        }
    }
}

/// The clamped region shift stays within the stream prefix.
proof fn lemma_start_shift_bounds(s: Seq<char>, code: BrailleCode, st: int)
    requires
        0 <= st,
    ensures
        0 <= spec_start_shift(s, code, st) <= st,
{
    let lo: int = if st >= 5 {
        st - 5
    } else {
        0
    };
    if code == BrailleCode::Ueb {
        lemma_start_ueb_nonneg(s, st, lo);
    }
}

/// The navigation overlay never loses a highlighted cell: moving the
/// region start backward exchanges one highlight for another, and
/// filling only adds.
pub proof fn lemma_highlight_count(s: Seq<char>, code: BrailleCode, fill: bool)
    requires
        forall|k: int| 0 <= k < s.len() ==> is_cell(#[trigger] s[k]),
    ensures
        count_hl(spec_highlight_braille(s, code, fill), 0) >= count_hl(s, 0),
{
    let st = first_hl(s, 0);
    lemma_first_hl_props(s, 0);
    if st < s.len() {
        let en = last_hl(s, s.len() as int);
        lemma_last_hl_props(s, s.len() as int);
        let shift = spec_start_shift(s, code, st);
        lemma_start_shift_bounds(s, code, st);
        let i0 = st - shift;
        let s2 = spec_move_start(s, code, st, en);
        assert(en >= st);
        if i0 < st {
            crate::cells::lemma_highlight_is_cell(s[i0]);
            if st < en {
                let mid = s.update(st, spec_unhighlight(s[st]));
                lemma_count_hl_update(s, st, spec_unhighlight(s[st]), 0);
                lemma_count_hl_update(mid, i0, spec_highlight(mid[i0]), 0);
                assert(count_hl(s2, 0) >= count_hl(s, 0));
            } else {
                lemma_count_hl_update(s, i0, spec_highlight(s[i0]), 0);
                assert(count_hl(s2, 0) >= count_hl(s, 0));
            }
        } else {
            assert(s2 == s);
        }
        assert forall|k: int| 0 <= k < s2.len() implies is_cell(#[trigger] s2[k]) by {
            if k == i0 && i0 < st {
                crate::cells::lemma_highlight_is_cell(s[i0]);
            } else if k == st && i0 < st && st < en {
                if is_highlighted_cell(s[st]) {
                    crate::cells::lemma_unhighlight_is_plain(s[st]);
                }
            }
        }
        let r = spec_highlight_braille(s, code, fill);
        if i0 == en || !fill {
            assert(r == s2);
        } else {
            assert(r.len() == s2.len());
            assert forall|k: int|
                0 <= k < s2.len() && is_highlighted_cell(s2[k]) implies is_highlighted_cell(
                r[k],
            ) by {
                if i0 <= k < en {
                    crate::cells::lemma_highlight_is_cell(s2[k]);
                }
            }
            lemma_count_hl_pointwise(s2, r, 0);
        }
    }
}

/// With `fill_range`, every cell from the (possibly moved) start of the
/// highlighted region through the last originally highlighted cell is
/// highlighted in the result.
pub proof fn lemma_highlight_fill(s: Seq<char>, code: BrailleCode)
    requires
        forall|k: int| 0 <= k < s.len() ==> is_cell(#[trigger] s[k]),
        first_hl(s, 0) < s.len(),
    ensures
        ({
            let r = spec_highlight_braille(s, code, true);
            let en = last_hl(s, s.len() as int);
            forall|k: int|
                first_hl(r, 0) <= k <= en ==> is_highlighted_cell(#[trigger] r[k])
        }),
{
    let st = first_hl(s, 0);
    lemma_first_hl_props(s, 0);
    let en = last_hl(s, s.len() as int);
    lemma_last_hl_props(s, s.len() as int);
    let shift = spec_start_shift(s, code, st);
    lemma_start_shift_bounds(s, code, st);
    let i0 = st - shift;
    let s2 = spec_move_start(s, code, st, en);
    let r = spec_highlight_braille(s, code, true);
    assert(st <= en);
    if i0 < st {
        crate::cells::lemma_highlight_is_cell(s[i0]);
    }
    assert forall|k: int| 0 <= k < s2.len() implies is_cell(#[trigger] s2[k]) by {
        if k == i0 && i0 < st {
            crate::cells::lemma_highlight_is_cell(s[i0]);
        } else if k == st && i0 < st && st < en {
            if is_highlighted_cell(s[st]) {
                crate::cells::lemma_unhighlight_is_plain(s[st]);
            }
        }
    }
    assert(is_highlighted_cell(s2[i0]));
    assert(is_highlighted_cell(s2[en]));
    assert(forall|k: int| 0 <= k < i0 ==> s2[k] == s[k]);
    if i0 == en {
        assert(r == s2);
        lemma_first_hl_between(r, 0, i0);
        assert(first_hl(r, 0) == i0);
    } else {
        assert forall|k: int| i0 <= k <= en implies is_highlighted_cell(#[trigger] r[k]) by {
            if k < en {
                crate::cells::lemma_highlight_is_cell(s2[k]);
                assert(r[k] == spec_highlight(s2[k]));
            } else {
                assert(r[k] == s2[en]);
            }
        }
        assert(forall|k: int| 0 <= k < i0 ==> r[k] == s[k]);
        lemma_first_hl_between(r, 0, i0);
        assert(first_hl(r, 0) == i0);
    }
}

/// A stream of braille cells only: no control marker anywhere.
pub open spec fn all_cells(s: Seq<char>) -> bool {
    forall|k: int| 0 <= k < s.len() ==> is_cell(#[trigger] s[k])
}

proof fn lemma_eli_id(s: Seq<char>, i: int)
    requires
        all_cells(s),
        0 <= i <= s.len(),
    ensures
        crate::nemeth::spec_eli(s, i) == s.subrange(i, s.len() as int),
    decreases s.len() - i,
{
    if i < s.len() {
        lemma_eli_id(s, i + 1);
        assert(crate::nemeth::eli_match(s, i) is None);
        assert(crate::nemeth::spec_eli(s, i) =~= s.subrange(i, s.len() as int));
    } else {
        assert(crate::nemeth::spec_eli(s, i) =~= s.subrange(i, s.len() as int));
    }
}

proof fn lemma_enclosed_list_id(s: Seq<char>, i: int)
    requires
        all_cells(s),
        0 <= i <= s.len(),
    ensures
        crate::nemeth::spec_enclosed_list(s, i) == s.subrange(i, s.len() as int),
    decreases s.len() - i,
{
    if i < s.len() {
        lemma_enclosed_list_id(s, i + 1);
    }
    assert(crate::nemeth::spec_enclosed_list(s, i) =~= s.subrange(i, s.len() as int));
}

proof fn lemma_space_before_ind_id(s: Seq<char>, i: int)
    requires
        all_cells(s),
        0 <= i <= s.len(),
    ensures
        crate::nemeth::spec_space_before_ind(s, i) == s.subrange(i, s.len() as int),
    decreases s.len() - i,
{
    if i < s.len() {
        lemma_space_before_ind_id(s, i + 1);
    }
    assert(crate::nemeth::spec_space_before_ind(s, i) =~= s.subrange(i, s.len() as int));
}

proof fn lemma_space_after_ind_id(s: Seq<char>, i: int)
    requires
        all_cells(s),
        0 <= i <= s.len(),
    ensures
        crate::nemeth::spec_space_after_ind(s, i) == s.subrange(i, s.len() as int),
    decreases s.len() - i,
{
    if i < s.len() {
        lemma_space_after_ind_id(s, i + 1);
    }
    assert(crate::nemeth::spec_space_after_ind(s, i) =~= s.subrange(i, s.len() as int));
}

proof fn lemma_space_before_punct_id(s: Seq<char>, i: int)
    requires
        all_cells(s),
        0 <= i <= s.len(),
    ensures
        crate::nemeth::spec_space_before_punct(s, i) == s.subrange(i, s.len() as int),
    decreases s.len() - i,
{
    if i < s.len() {
        lemma_space_before_punct_id(s, i + 1);
    }
    assert(crate::nemeth::spec_space_before_punct(s, i) =~= s.subrange(i, s.len() as int));
}

proof fn lemma_space_after_punct_id(s: Seq<char>, i: int)
    requires
        all_cells(s),
        0 <= i <= s.len(),
    ensures
        crate::nemeth::spec_space_after_punct(s, i) == s.subrange(i, s.len() as int),
    decreases s.len() - i,
{
    if i < s.len() {
        lemma_space_after_punct_id(s, i + 1);
    }
    assert(crate::nemeth::spec_space_after_punct(s, i) =~= s.subrange(i, s.len() as int));
}

proof fn lemma_lone_decimal_id(s: Seq<char>, i: int)
    requires
        all_cells(s),
        0 <= i <= s.len(),
    ensures
        crate::nemeth::spec_lone_decimal(s, i) == s.subrange(i, s.len() as int),
    decreases s.len() - i,
{
    if i < s.len() {
        lemma_lone_decimal_id(s, i + 1);
    }
    assert(crate::nemeth::spec_lone_decimal(s, i) =~= s.subrange(i, s.len() as int));
}

proof fn lemma_double_space_id(s: Seq<char>, i: int)
    requires
        all_cells(s),
        0 <= i <= s.len(),
    ensures
        crate::nemeth::spec_double_space(s, i) == s.subrange(i, s.len() as int),
    decreases s.len() - i,
{
    if i < s.len() {
        lemma_double_space_id(s, i + 1);
    }
    assert(crate::nemeth::spec_double_space(s, i) =~= s.subrange(i, s.len() as int));
}

proof fn lemma_multi_177_2_id(s: Seq<char>, i: int)
    requires
        all_cells(s),
        0 <= i <= s.len(),
    ensures
        crate::nemeth::spec_multi_177_2(s, i) == s.subrange(i, s.len() as int),
    decreases s.len() - i,
{
    if i < s.len() {
        lemma_multi_177_2_id(s, i + 1);
    }
    assert(crate::nemeth::spec_multi_177_2(s, i) =~= s.subrange(i, s.len() as int));
}

proof fn lemma_multi_177_3_id(s: Seq<char>, i: int)
    requires
        all_cells(s),
        0 <= i <= s.len(),
    ensures
        crate::nemeth::spec_multi_177_3(s, i) == s.subrange(i, s.len() as int),
    decreases s.len() - i,
{
    if i < s.len() {
        lemma_multi_177_3_id(s, i + 1);
    }
    assert(crate::nemeth::spec_multi_177_3(s, i) =~= s.subrange(i, s.len() as int));
}

proof fn lemma_multi_177_5_id(s: Seq<char>, i: int)
    requires
        all_cells(s),
        0 <= i <= s.len(),
    ensures
        crate::nemeth::spec_multi_177_5(s, i) == s.subrange(i, s.len() as int),
    decreases s.len() - i,
{
    if i < s.len() {
        lemma_multi_177_5_id(s, i + 1);
    }
    assert(crate::nemeth::spec_multi_177_5(s, i) =~= s.subrange(i, s.len() as int));
}

proof fn lemma_num_ind_9a_id(s: Seq<char>, i: int)
    requires
        all_cells(s),
        0 <= i <= s.len(),
    ensures
        crate::nemeth::spec_num_ind_9a(s, i) == s.subrange(i, s.len() as int),
    decreases s.len() - i,
{
    if i < s.len() {
        lemma_num_ind_9a_id(s, i + 1);
    }
    assert(crate::nemeth::spec_num_ind_9a(s, i) =~= s.subrange(i, s.len() as int));
}

proof fn lemma_num_ind_9c_id(s: Seq<char>, i: int)
    requires
        all_cells(s),
        0 <= i <= s.len(),
    ensures
        crate::nemeth::spec_num_ind_9c(s, i) == s.subrange(i, s.len() as int),
    decreases s.len() - i,
{
    if i < s.len() {
        lemma_num_ind_9c_id(s, i + 1);
    }
    assert(crate::nemeth::spec_num_ind_9c(s, i) =~= s.subrange(i, s.len() as int));
}

proof fn lemma_num_ind_9d_id(s: Seq<char>, i: int)
    requires
        all_cells(s),
        0 <= i <= s.len(),
    ensures
        crate::nemeth::spec_num_ind_9d(s, i) == s.subrange(i, s.len() as int),
    decreases s.len() - i,
{
    if i < s.len() {
        lemma_num_ind_9d_id(s, i + 1);
    }
    assert(crate::nemeth::spec_num_ind_9d(s, i) =~= s.subrange(i, s.len() as int));
}

proof fn lemma_num_ind_9b_id(s: Seq<char>, i: int)
    requires
        all_cells(s),
        0 <= i <= s.len(),
    ensures
        crate::nemeth::spec_num_ind_9b(s, i) == s.subrange(i, s.len() as int),
    decreases s.len() - i,
{
    if i < s.len() {
        lemma_num_ind_9b_id(s, i + 1);
    }
    assert(crate::nemeth::spec_num_ind_9b(s, i) =~= s.subrange(i, s.len() as int));
}

proof fn lemma_level_ind_id(s: Seq<char>, i: int)
    requires
        all_cells(s),
        0 <= i <= s.len(),
    ensures
        crate::nemeth::spec_level_ind(s, i) == s.subrange(i, s.len() as int),
    decreases s.len() - i,
{
    if i < s.len() {
        lemma_level_ind_id(s, i + 1);
    }
    assert(crate::nemeth::spec_level_ind(s, i) =~= s.subrange(i, s.len() as int));
}

proof fn lemma_level_baseline_id(s: Seq<char>, i: int)
    requires
        all_cells(s),
        0 <= i <= s.len(),
    ensures
        crate::nemeth::spec_level_baseline(s, i) == s.subrange(i, s.len() as int),
    decreases s.len() - i,
{
    if i < s.len() {
        lemma_level_baseline_id(s, i + 1);
    }
    assert(crate::nemeth::spec_level_baseline(s, i) =~= s.subrange(i, s.len() as int));
}

proof fn lemma_punct_38_id(s: Seq<char>, i: int)
    requires
        all_cells(s),
        0 <= i <= s.len(),
    ensures
        crate::nemeth::spec_punct_38(s, i) == s.subrange(i, s.len() as int),
    decreases s.len() - i,
{
    if i < s.len() {
        lemma_punct_38_id(s, i + 1);
    }
    assert(crate::nemeth::spec_punct_38(s, i) =~= s.subrange(i, s.len() as int));
}

proof fn lemma_nemeth_subst_id(s: Seq<char>, i: int)
    requires
        all_cells(s),
        0 <= i <= s.len(),
    ensures
        crate::nemeth::spec_nemeth_subst(s, i) == s.subrange(i, s.len() as int),
    decreases s.len() - i,
{
    if i < s.len() {
        lemma_nemeth_subst_id(s, i + 1);
        assert(crate::nemeth::nemeth_subst_char(s[i]) == seq![s[i]]);
    }
    assert(crate::nemeth::spec_nemeth_subst(s, i) =~= s.subrange(i, s.len() as int));
}

/// Nemeth cleanup on a marker-free stream is space trimming and
/// collapsing and nothing more.
pub proof fn lemma_nemeth_pure_braille(s: Seq<char>)
    requires
        all_cells(s),
    ensures
        spec_nemeth_cleanup(s) == spec_collapse_spaces(spec_trim_spaces(s), 0),
{
    lemma_eli_id(s, 0);
    assert(s.subrange(0, s.len() as int) =~= s);
    lemma_enclosed_list_id(s, 0);
    lemma_space_before_ind_id(s, 0);
    lemma_space_after_ind_id(s, 0);
    lemma_space_before_punct_id(s, 0);
    lemma_space_after_punct_id(s, 0);
    lemma_lone_decimal_id(s, 0);
    lemma_double_space_id(s, 0);
    lemma_multi_177_2_id(s, 0);
    lemma_multi_177_3_id(s, 0);
    lemma_multi_177_5_id(s, 0);
    lemma_num_ind_9a_id(s, 0);
    lemma_num_ind_9c_id(s, 0);
    lemma_num_ind_9d_id(s, 0);
    assert(crate::nemeth::spec_num_ind_9e(s) =~= s);
    assert(crate::nemeth::spec_num_ind_9e_shape(s) =~= s);
    assert(crate::nemeth::spec_num_ind_9f(s) =~= s);
    lemma_num_ind_9b_id(s, 0);
    lemma_level_ind_id(s, 0);
    lemma_level_baseline_id(s, 0);
    lemma_punct_38_id(s, 0);
    lemma_nemeth_subst_id(s, 0);
}

proof fn lemma_typeface_id(s: Seq<char>, i: int, wm: Seq<char>, wme: Seq<char>)
    requires
        all_cells(s),
        0 <= i <= s.len(),
    ensures
        crate::ueb::spec_typeface(s, i, wm, wme) == s.subrange(i, s.len() as int),
    decreases s.len() - i,
{
    if i < s.len() {
        lemma_typeface_id(s, i + 1, wm, wme);
    }
    assert(crate::ueb::spec_typeface(s, i, wm, wme) =~= s.subrange(i, s.len() as int));
}

proof fn lemma_capitals_id(s: Seq<char>, i: int, word: bool)
    requires
        all_cells(s),
        0 <= i <= s.len(),
    ensures
        crate::ueb::spec_capitals(s, i, word) == s.subrange(i, s.len() as int),
    decreases s.len() - i,
{
    if i < s.len() {
        lemma_capitals_id(s, i + 1, false);
    }
    assert(crate::ueb::spec_capitals(s, i, word) =~= s.subrange(i, s.len() as int));
}

proof fn lemma_no_marker_char(s: Seq<char>, i: int, c: char)
    requires
        all_cells(s),
        0 <= i <= s.len(),
        !is_cell(c),
    ensures
        crate::ueb::first_char_from(s, i, c) == s.len(),
    decreases s.len() - i,
{
    if i < s.len() {
        lemma_no_marker_char(s, i + 1, c);
    }
}

/// The mode reducer on a marker-free stream emits it unchanged: with no
/// number marker the numeric state is never entered, and every cell
/// takes the passthrough arm.
proof fn lemma_reduce_id(
    s: Seq<char>,
    i: int,
    mode: crate::ueb::UebMode,
    dur: crate::ueb::UebDuration,
    capw: bool,
    ing2: bool,
    sm: crate::ueb::UebMode,
    sd: crate::ueb::UebDuration,
)
    requires
        all_cells(s),
        0 <= i <= s.len(),
        mode != crate::ueb::UebMode::Numeric,
        sm != crate::ueb::UebMode::Numeric,
    ensures
        crate::ueb::spec_reduce(s, i, mode, dur, capw, ing2, Seq::empty(), sm, sd) == s.subrange(
            i,
            s.len() as int,
        ),
    decreases s.len() - i,
{
    reveal(crate::ueb::spec_reduce);
    if i < s.len() {
        let ch = s[i];
        if mode == crate::ueb::UebMode::Grade1 {
            let m2 = if dur == crate::ueb::UebDuration::Symbol && !crate::ueb::is_letter_prefix(
                ch,
            ) {
                sm
            } else {
                crate::ueb::UebMode::Grade1
            };
            lemma_reduce_id(s, i + 1, m2, dur, capw, false, sm, sd);
        } else {
            let capw2 = if !ing2 {
                false
            } else {
                capw
            };
            let capw4 = if !crate::ueb::is_left_intervening(ch) {
                false
            } else {
                capw2
            };
            lemma_reduce_id(s, i + 1, crate::ueb::UebMode::Grade2, dur, capw4, true, sm, sd);
        }
        assert(crate::ueb::spec_reduce(s, i, mode, dur, capw, ing2, Seq::empty(), sm, sd)
            =~= s.subrange(i, s.len() as int));
    } else {
        assert(crate::ueb::spec_reduce(s, i, mode, dur, capw, ing2, Seq::empty(), sm, sd)
            =~= s.subrange(i, s.len() as int));
    }
}

proof fn lemma_g2ok_rest_cells(s: Seq<char>, i: int, seen: bool)
    requires
        all_cells(s),
        0 <= i,
    ensures
        crate::ueb::g2ok_rest(s, i, seen),
    decreases s.len() - i,
{
    if i < s.len() {
        lemma_g2ok_rest_cells(s, i + 1, seen);
    }
}

proof fn lemma_g2ok_first_cells(s: Seq<char>, i: int, n_real: int, found: bool)
    requires
        all_cells(s),
        0 <= i,
    ensures
        crate::ueb::g2ok_first(s, i, n_real, found),
    decreases s.len() - i,
{
    if i < s.len() {
        if n_real == 2 {
            lemma_g2ok_rest_cells(s, i + 1, false);
        } else {
            lemma_g2ok_first_cells(s, i + 1, n_real + 1, found);
        }
    }
}

proof fn lemma_pick_id(s: Seq<char>, only_g1: bool)
    requires
        all_cells(s),
    ensures
        crate::ueb::spec_pick_start(s, only_g1) == s,
{
    assert(s.subrange(0, s.len() as int) =~= s);
    if only_g1 {
        lemma_reduce_id(
            s,
            0,
            crate::ueb::UebMode::Grade1,
            crate::ueb::UebDuration::Passage,
            false,
            false,
            crate::ueb::UebMode::Grade1,
            crate::ueb::UebDuration::Passage,
        );
    } else {
        lemma_reduce_id(
            s,
            0,
            crate::ueb::UebMode::Grade2,
            crate::ueb::UebDuration::Symbol,
            false,
            false,
            crate::ueb::UebMode::Grade2,
            crate::ueb::UebDuration::Symbol,
        );
        lemma_g2ok_first_cells(s, 0, 0, false);
    }
}

proof fn lemma_tw_id(s: Seq<char>, i: int)
    requires
        all_cells(s),
        0 <= i <= s.len(),
    ensures
        crate::ueb::spec_tw(s, i) == s.subrange(i, s.len() as int),
    decreases s.len() - i,
{
    if i < s.len() {
        lemma_tw_id(s, i + 1);
    }
    assert(crate::ueb::spec_tw(s, i) =~= s.subrange(i, s.len() as int));
}

proof fn lemma_ueb_subst_id(
    s: Seq<char>,
    i: int,
    ds: Seq<char>,
    ss: Seq<char>,
    fr: Seq<char>,
    gv: Seq<char>,
)
    requires
        all_cells(s),
        0 <= i <= s.len(),
    ensures
        crate::ueb::spec_ueb_subst(s, i, ds, ss, fr, gv) == s.subrange(i, s.len() as int),
    decreases s.len() - i,
{
    if i < s.len() {
        lemma_ueb_subst_id(s, i + 1, ds, ss, fr, gv);
        assert(crate::ueb::ueb_subst_char(s[i], ds, ss, fr, gv) == seq![s[i]]);
    }
    assert(crate::ueb::spec_ueb_subst(s, i, ds, ss, fr, gv) =~= s.subrange(i, s.len() as int));
}

/// UEB cleanup on a marker-free stream is space collapsing and nothing
/// more.
pub proof fn lemma_ueb_pure_braille(
    s: Seq<char>,
    only_g1: bool,
    ds: Seq<char>,
    ss: Seq<char>,
    fr: Seq<char>,
    gv: Seq<char>,
)
    requires
        all_cells(s),
    ensures
        crate::ueb::spec_ueb_cleanup(s, only_g1, ds, ss, fr, gv) == spec_collapse_spaces(s, 0),
{
    lemma_typeface_id(s, 0, Seq::empty(), Seq::empty());
    assert(s.subrange(0, s.len() as int) =~= s);
    lemma_capitals_id(s, 0, false);
    lemma_no_marker_char(s, 0, '𝐖');
    lemma_pick_id(s, only_g1);
    assert(crate::ueb::spec_segjoin(s, 0, only_g1) == s);
    lemma_tw_id(s, 0);
    lemma_ueb_subst_id(s, 0, ds, ss, fr, gv);
}

proof fn lemma_replace_pair_id(s: Seq<char>, i: int, a: char, b: char, rep: Seq<char>)
    requires
        all_cells(s),
        0 <= i <= s.len(),
        !is_cell(a),
    ensures
        crate::vietnam::spec_replace_pair(s, i, a, b, rep) == s.subrange(i, s.len() as int),
    decreases s.len() - i,
{
    if i < s.len() {
        lemma_replace_pair_id(s, i + 1, a, b, rep);
    }
    assert(crate::vietnam::spec_replace_pair(s, i, a, b, rep) =~= s.subrange(i, s.len() as int));
}

proof fn lemma_vietnam_subst_id(
    s: Seq<char>,
    i: int,
    ds: Seq<char>,
    ss: Seq<char>,
    fr: Seq<char>,
    gv: Seq<char>,
)
    requires
        all_cells(s),
        0 <= i <= s.len(),
    ensures
        crate::vietnam::spec_vietnam_subst(s, i, ds, ss, fr, gv) == s.subrange(i, s.len() as int),
    decreases s.len() - i,
{
    if i < s.len() {
        lemma_vietnam_subst_id(s, i + 1, ds, ss, fr, gv);
        assert(crate::vietnam::vietnam_subst_char(s[i], ds, ss, fr, gv) == seq![s[i]]);
    }
    assert(crate::vietnam::spec_vietnam_subst(s, i, ds, ss, fr, gv) =~= s.subrange(
        i,
        s.len() as int,
    ));
}

/// Vietnamese cleanup on a marker-free stream is space collapsing and
/// nothing more.
pub proof fn lemma_vietnam_pure_braille(
    s: Seq<char>,
    ds: Seq<char>,
    ss: Seq<char>,
    fr: Seq<char>,
    gv: Seq<char>,
)
    requires
        all_cells(s),
    ensures
        crate::vietnam::spec_vietnam_cleanup(s, ds, ss, fr, gv) == spec_collapse_spaces(s, 0),
{
    lemma_typeface_id(s, 0, Seq::empty(), Seq::empty());
    assert(s.subrange(0, s.len() as int) =~= s);
    lemma_capitals_id(s, 0, false);
    lemma_tw_id(s, 0);
    lemma_replace_pair_id(s, 0, 'C', 'G', seq!['⠸']);
    lemma_replace_pair_id(s, 0, 'C', 'C', seq!['⠸']);
    lemma_reduce_id(
        s,
        0,
        crate::ueb::UebMode::Grade1,
        crate::ueb::UebDuration::Passage,
        false,
        false,
        crate::ueb::UebMode::Grade1,
        crate::ueb::UebDuration::Passage,
    );
    lemma_vietnam_subst_id(s, 0, ds, ss, fr, gv);
}

proof fn lemma_cmu_subst_id(s: Seq<char>, i: int)
    requires
        all_cells(s),
        0 <= i <= s.len(),
    ensures
        crate::cmu::spec_cmu_subst(s, i) == s.subrange(i, s.len() as int),
    decreases s.len() - i,
{
    if i < s.len() {
        lemma_cmu_subst_id(s, i + 1);
        assert(crate::cmu::cmu_subst_char(s[i]) == seq![s[i]]);
    }
    assert(crate::cmu::spec_cmu_subst(s, i) =~= s.subrange(i, s.len() as int));
}

proof fn lemma_cond_space_id(s: Seq<char>, i: int)
    requires
        all_cells(s),
        0 <= i <= s.len(),
    ensures
        crate::cmu::spec_cond_space(s, i) == s.subrange(i, s.len() as int),
    decreases s.len() - i,
{
    if i < s.len() {
        lemma_cond_space_id(s, i + 1);
    }
    assert(crate::cmu::spec_cond_space(s, i) =~= s.subrange(i, s.len() as int));
}

/// CMU cleanup on a marker-free stream is space collapsing and nothing
/// more.
pub proof fn lemma_cmu_pure_braille(s: Seq<char>)
    requires
        all_cells(s),
    ensures
        crate::cmu::spec_cmu_cleanup(s) == spec_collapse_spaces(s, 0),
{
    assert(s.subrange(0, s.len() as int) =~= s);
    lemma_replace_pair_id(s, 0, 'C', 'G', seq!['⠘']);
    lemma_replace_pair_id(s, 0, '𝔹', 'C', seq!['⠩']);
    lemma_replace_pair_id(s, 0, 'D', 'C', seq!['⠰']);
    lemma_reduce_id(
        s,
        0,
        crate::ueb::UebMode::Grade1,
        crate::ueb::UebDuration::Passage,
        false,
        false,
        crate::ueb::UebMode::Grade1,
        crate::ueb::UebDuration::Passage,
    );
    lemma_replace_pair_id(s, 0, '𝑁', 'N', Seq::empty());
    lemma_cmu_subst_id(s, 0);
    lemma_cond_space_id(s, 0);
}

/// The Nemeth marker alphabet: every control character the code's raw
/// streams may carry.
pub open spec fn is_nemeth_marker(c: char) -> bool {
    c == 'S' || c == 'B' || c == '𝔹' || c == 'T' || c == 'I' || c == 'R' || c == 'E' || c == 'D'
        || c == 'G' || c == 'V' || c == 'H' || c == 'U' || c == 'C' || c == 'P' || c == '𝐏' || c
        == 'L' || c == 'l' || c == 'M' || c == 'm' || c == 'N' || c == 'n' || c == '𝑁' || c == 'W'
        || c == 'w' || c == ',' || c == 'b' || c == '↑' || c == '↓'
}

/// Every character is a braille cell or a Nemeth marker.
pub open spec fn nemeth_alpha(s: Seq<char>) -> bool {
    forall|k: int| 0 <= k < s.len() ==> is_cell(#[trigger] s[k]) || is_nemeth_marker(s[k])
}

#[verifier::rlimit(100)]
#[verifier::spinoff_prover]
proof fn lemma_eli_alpha(s: Seq<char>, i: int)
    requires
        nemeth_alpha(s),
        0 <= i,
    ensures
        nemeth_alpha(crate::nemeth::spec_eli(s, i)),
    decreases s.len() - i,
{
    if i < s.len() {
        match crate::nemeth::eli_match(s, i) {
            Some(m) => {
                if m.4 == 1 {
                    lemma_eli_alpha(s, i + m.0 + m.1 + m.2 + m.3);
                }
            },
            None => {
                lemma_eli_alpha(s, i + 1);
            },
        }
    }
}

proof fn lemma_enclosed_list_alpha(s: Seq<char>, i: int)
    requires
        nemeth_alpha(s),
        0 <= i,
    ensures
        nemeth_alpha(crate::nemeth::spec_enclosed_list(s, i)),
    decreases s.len() - i,
{
    if i < s.len() {
        if s[i] == 'w' && i + 1 < s.len() && crate::nemeth::is_nemeth_digit(s[i + 1]) {
            lemma_enclosed_list_alpha(s, i + 2);
        } else {
            lemma_enclosed_list_alpha(s, i + 1);
        }
    }
}

proof fn lemma_space_before_ind_alpha(s: Seq<char>, i: int)
    requires
        nemeth_alpha(s),
        0 <= i,
    ensures
        nemeth_alpha(crate::nemeth::spec_space_before_ind(s, i)),
    decreases s.len() - i,
{
    if i < s.len() {
        let d = crate::nemeth::ellipsis_or_dash_len(s, i);
        let run = crate::nemeth::space_run_len(s, i + d);
        crate::nemeth::lemma_space_run_nonneg(s, i + d);
        if d > 0 && run > 0 && i + d + run < s.len() && (s[i + d + run] == '⠼' || s[i + d + run]
            == '⠸' || s[i + d + run] == '⠪') {
            lemma_space_before_ind_alpha(s, i + d + run + 1);
        } else {
            lemma_space_before_ind_alpha(s, i + 1);
        }
    }
}

proof fn lemma_space_after_ind_alpha(s: Seq<char>, i: int)
    requires
        nemeth_alpha(s),
        0 <= i,
    ensures
        nemeth_alpha(crate::nemeth::spec_space_after_ind(s, i)),
    decreases s.len() - i,
{
    if i < s.len() {
        if s[i] == '⠹' || s[i] == '⠻' || s[i] == 'L' || s[i] == 'l' || s[i] == 'b' {
            let run = crate::nemeth::space_run_len(s, i + 1);
            let d = crate::nemeth::ellipsis_or_dash_len(s, i + 1 + run);
            crate::nemeth::lemma_space_run_nonneg(s, i + 1);
            if run > 0 && d > 0 {
                lemma_space_after_ind_alpha(s, i + 1 + run + d);
            } else {
                lemma_space_after_ind_alpha(s, i + 1);
            }
        } else {
            lemma_space_after_ind_alpha(s, i + 1);
        }
    }
}

proof fn lemma_space_before_punct_alpha(s: Seq<char>, i: int)
    requires
        nemeth_alpha(s),
        0 <= i,
    ensures
        nemeth_alpha(crate::nemeth::spec_space_before_punct(s, i)),
    decreases s.len() - i,
{
    if i < s.len() {
        if s[i] == 'w' && crate::nemeth::punct_group_len(s, i + 1, '⠾') > 0 {
            lemma_space_before_punct_alpha(s, i + 1 + crate::nemeth::punct_group_len(s, i + 1, '⠾'));
        } else {
            lemma_space_before_punct_alpha(s, i + 1);
        }
    }
}

proof fn lemma_space_after_punct_alpha(s: Seq<char>, i: int)
    requires
        nemeth_alpha(s),
        0 <= i,
    ensures
        nemeth_alpha(crate::nemeth::spec_space_after_punct(s, i)),
    decreases s.len() - i,
{
    if i < s.len() {
        lemma_space_after_punct_alpha(s, i + 1);
        if i + 2 <= s.len() {
            lemma_space_after_punct_alpha(s, i + 2);
        }
        if i + 3 <= s.len() {
            lemma_space_after_punct_alpha(s, i + 3);
        }
        if i + 4 <= s.len() {
            lemma_space_after_punct_alpha(s, i + 4);
        }
    }
}

proof fn lemma_lone_decimal_alpha(s: Seq<char>, i: int)
    requires
        nemeth_alpha(s),
        0 <= i,
    ensures
        nemeth_alpha(crate::nemeth::spec_lone_decimal(s, i)),
    decreases s.len() - i,
{
    if i < s.len() {
        lemma_lone_decimal_alpha(s, i + 1);
        if i + 4 <= s.len() {
            lemma_lone_decimal_alpha(s, i + 4);
        }
    }
}

proof fn lemma_double_space_alpha(s: Seq<char>, i: int)
    requires
        nemeth_alpha(s),
        0 <= i,
    ensures
        nemeth_alpha(crate::nemeth::spec_double_space(s, i)),
    decreases s.len() - i,
{
    if i < s.len() {
        lemma_double_space_alpha(s, i + 1);
        if i + 2 <= s.len() {
            lemma_double_space_alpha(s, i + 2);
        }
    }
}

proof fn lemma_multi_177_2_alpha(s: Seq<char>, i: int)
    requires
        nemeth_alpha(s),
        0 <= i,
    ensures
        nemeth_alpha(crate::nemeth::spec_multi_177_2(s, i)),
    decreases s.len() - i,
{
    if i < s.len() {
        lemma_multi_177_2_alpha(s, i + 1);
        if i + 3 <= s.len() {
            lemma_multi_177_2_alpha(s, i + 3);
        }
    }
}

proof fn lemma_multi_177_3_alpha(s: Seq<char>, i: int)
    requires
        nemeth_alpha(s),
        0 <= i,
    ensures
        nemeth_alpha(crate::nemeth::spec_multi_177_3(s, i)),
    decreases s.len() - i,
{
    if i < s.len() {
        lemma_multi_177_3_alpha(s, i + 1);
        if i + 5 <= s.len() {
            lemma_multi_177_3_alpha(s, i + 5);
        }
    }
}

proof fn lemma_multi_177_5_alpha(s: Seq<char>, i: int)
    requires
        nemeth_alpha(s),
        0 <= i,
    ensures
        nemeth_alpha(crate::nemeth::spec_multi_177_5(s, i)),
    decreases s.len() - i,
{
    if i < s.len() {
        lemma_multi_177_5_alpha(s, i + 1);
        if i + 3 <= s.len() {
            lemma_multi_177_5_alpha(s, i + 3);
        }
    }
}

proof fn lemma_num_ind_9a_alpha(s: Seq<char>, i: int)
    requires
        nemeth_alpha(s),
        0 <= i,
    ensures
        nemeth_alpha(crate::nemeth::spec_num_ind_9a(s, i)),
    decreases s.len() - i,
{
    if i < s.len() {
        lemma_num_ind_9a_alpha(s, i + 1);
        if i + 2 <= s.len() {
            lemma_num_ind_9a_alpha(s, i + 2);
        }
        if i + 3 <= s.len() {
            lemma_num_ind_9a_alpha(s, i + 3);
        }
    }
}

proof fn lemma_num_ind_9c_alpha(s: Seq<char>, i: int)
    requires
        nemeth_alpha(s),
        0 <= i,
    ensures
        nemeth_alpha(crate::nemeth::spec_num_ind_9c(s, i)),
    decreases s.len() - i,
{
    if i < s.len() {
        let m: int = if s[i] == '⠤' {
            1
        } else {
            0
        };
        let g = crate::nemeth::ref_symbol_9c_len(s, i + m);
        if g > 0 && i + m + g < s.len() && s[i + m + g] == 'N' {
            lemma_num_ind_9c_alpha(s, i + m + g + 1);
        } else {
            lemma_num_ind_9c_alpha(s, i + 1);
        }
    }
}

proof fn lemma_num_ind_9d_alpha(s: Seq<char>, i: int)
    requires
        nemeth_alpha(s),
        0 <= i,
    ensures
        nemeth_alpha(crate::nemeth::spec_num_ind_9d(s, i)),
    decreases s.len() - i,
{
    if i < s.len() {
        let g = crate::nemeth::ref_symbol_9d_len(s, i);
        if g > 0 && i + g < s.len() && s[i + g] == 'N' {
            lemma_num_ind_9d_alpha(s, i + g + 1);
        } else {
            lemma_num_ind_9d_alpha(s, i + 1);
        }
    }
}

proof fn lemma_num_ind_9b_alpha(s: Seq<char>, i: int)
    requires
        nemeth_alpha(s),
        0 <= i,
    ensures
        nemeth_alpha(crate::nemeth::spec_num_ind_9b(s, i)),
    decreases s.len() - i,
{
    if i < s.len() {
        lemma_num_ind_9b_alpha(s, i + 1);
        if i + 3 <= s.len() {
            lemma_num_ind_9b_alpha(s, i + 3);
        }
        if i + 4 <= s.len() {
            lemma_num_ind_9b_alpha(s, i + 4);
        }
        if i + 5 <= s.len() {
            lemma_num_ind_9b_alpha(s, i + 5);
        }
    }
}

proof fn lemma_level_ind_alpha(s: Seq<char>, i: int)
    requires
        nemeth_alpha(s),
        0 <= i,
    ensures
        nemeth_alpha(crate::nemeth::spec_level_ind(s, i)),
    decreases s.len() - i,
{
    if i < s.len() {
        let r = crate::nemeth::arrow_run_len(s, i);
        crate::nemeth::lemma_arrow_run_nonneg(s, i);
        if r > 0 && i + r < s.len() && s[i + r] == 'b' && i + r + 1 < s.len()
            && crate::nemeth::is_level_stop(s[i + r + 1]) {
            lemma_level_ind_alpha(s, i + r + 2);
        } else if r > 0 && i + r < s.len() && crate::nemeth::is_level_stop(s[i + r]) {
            lemma_level_ind_alpha(s, i + r + 1);
        } else {
            lemma_level_ind_alpha(s, i + 1);
            if i + 2 <= s.len() {
                lemma_level_ind_alpha(s, i + 2);
            }
        }
    }
}

proof fn lemma_level_baseline_alpha(s: Seq<char>, i: int)
    requires
        nemeth_alpha(s),
        0 <= i,
    ensures
        nemeth_alpha(crate::nemeth::spec_level_baseline(s, i)),
    decreases s.len() - i,
{
    if i < s.len() {
        let r = crate::nemeth::arrow_run_len(s, i);
        crate::nemeth::lemma_arrow_run_nonneg(s, i);
        if r > 0 && i + r < s.len() && s[i + r] == 'b' {
            lemma_level_baseline_alpha(s, i + r + 1);
        } else {
            lemma_level_baseline_alpha(s, i + 1);
        }
    }
}

proof fn lemma_punct_38_alpha(s: Seq<char>, i: int)
    requires
        nemeth_alpha(s),
        0 <= i,
    ensures
        nemeth_alpha(crate::nemeth::spec_punct_38(s, i)),
    decreases s.len() - i,
{
    if i < s.len() {
        lemma_punct_38_alpha(s, i + 1);
        if i + 2 <= s.len() {
            lemma_punct_38_alpha(s, i + 2);
        }
        if i + 3 <= s.len() {
            lemma_punct_38_alpha(s, i + 3);
        }
        if i + 6 <= s.len() {
            lemma_punct_38_alpha(s, i + 6);
        }
    }
}

/// The final substitution maps every marker to cells, and leaves cells
/// alone: its output over the Nemeth alphabet is pure braille.
proof fn lemma_nemeth_subst_closure(s: Seq<char>, i: int)
    requires
        nemeth_alpha(s),
        0 <= i,
    ensures
        all_cells(crate::nemeth::spec_nemeth_subst(s, i)),
    decreases s.len() - i,
{
    if i < s.len() {
        lemma_nemeth_subst_closure(s, i + 1);
        assert forall|j: int|
            0 <= j < crate::nemeth::nemeth_subst_char(s[i]).len() implies is_cell(
            #[trigger] crate::nemeth::nemeth_subst_char(s[i])[j],
        ) by {
            assert(is_cell(s[i]) || is_nemeth_marker(s[i]));
        }
    }
}

proof fn lemma_skip_from_bounds(s: Seq<char>, i: int)
    requires
        0 <= i <= s.len(),
    ensures
        i <= crate::nemeth::skip_spaces_from(s, i) <= s.len(),
        crate::nemeth::skip_spaces_from(s, i) < s.len() ==> s[crate::nemeth::skip_spaces_from(
            s,
            i,
        )] != '⠀',
    decreases s.len() - i,
{
    if i < s.len() && s[i] == '⠀' {
        lemma_skip_from_bounds(s, i + 1);
    }
}

proof fn lemma_skip_down_bounds(s: Seq<char>, j: int)
    requires
        0 <= j <= s.len(),
    ensures
        0 <= crate::nemeth::skip_spaces_down(s, j) <= j,
    decreases j,
{
    if 0 < j && s[j - 1] == '⠀' {
        lemma_skip_down_bounds(s, j - 1);
    }
}

proof fn lemma_trim_cells(s: Seq<char>)
    requires
        all_cells(s),
    ensures
        all_cells(spec_trim_spaces(s)),
{
    lemma_skip_from_bounds(s, 0);
    lemma_skip_down_bounds(s, s.len() as int);
    let a = crate::nemeth::skip_spaces_from(s, 0);
    let r = spec_trim_spaces(s);
    if a < s.len() {
        crate::nemeth::lemma_skip_spaces_down_ge(s, s.len() as int, a);
        let b = crate::nemeth::skip_spaces_down(s, s.len() as int);
        assert forall|k: int| 0 <= k < r.len() implies is_cell(#[trigger] r[k]) by {
            assert(r[k] == s[a + k]);
            assert(is_cell(s[a + k]));
        }
    }
}

proof fn lemma_collapse_cells(s: Seq<char>, i: int)
    requires
        all_cells(s),
        0 <= i,
    ensures
        all_cells(spec_collapse_spaces(s, i)),
    decreases s.len() - i,
{
    if i < s.len() {
        lemma_collapse_cells(s, i + 1);
    }
}

/// Closure: over a raw stream drawn from the Nemeth alphabet, every
/// character of the cleanup output is a braille cell.
pub proof fn lemma_nemeth_closure(raw: Seq<char>)
    requires
        nemeth_alpha(raw),
    ensures
        all_cells(spec_nemeth_cleanup(raw)),
{
    let s1 = crate::nemeth::spec_eli(raw, 0);
    lemma_eli_alpha(raw, 0);
    let s2 = crate::nemeth::spec_enclosed_list(s1, 0);
    lemma_enclosed_list_alpha(s1, 0);
    let s3 = crate::nemeth::spec_space_before_ind(s2, 0);
    lemma_space_before_ind_alpha(s2, 0);
    let s4 = crate::nemeth::spec_space_after_ind(s3, 0);
    lemma_space_after_ind_alpha(s3, 0);
    let s5 = crate::nemeth::spec_space_before_punct(s4, 0);
    lemma_space_before_punct_alpha(s4, 0);
    let s6 = crate::nemeth::spec_space_after_punct(s5, 0);
    lemma_space_after_punct_alpha(s5, 0);
    let s7 = crate::nemeth::spec_lone_decimal(s6, 0);
    lemma_lone_decimal_alpha(s6, 0);
    let s8 = crate::nemeth::spec_double_space(s7, 0);
    lemma_double_space_alpha(s7, 0);
    let s9 = crate::nemeth::spec_multi_177_2(s8, 0);
    lemma_multi_177_2_alpha(s8, 0);
    let s10 = crate::nemeth::spec_multi_177_3(s9, 0);
    lemma_multi_177_3_alpha(s9, 0);
    let s11 = crate::nemeth::spec_multi_177_5(s10, 0);
    lemma_multi_177_5_alpha(s10, 0);
    let s12 = crate::nemeth::spec_num_ind_9a(s11, 0);
    lemma_num_ind_9a_alpha(s11, 0);
    let s13 = crate::nemeth::spec_num_ind_9c(s12, 0);
    lemma_num_ind_9c_alpha(s12, 0);
    let s14 = crate::nemeth::spec_num_ind_9d(s13, 0);
    lemma_num_ind_9d_alpha(s13, 0);
    let s15 = crate::nemeth::spec_num_ind_9e(s14);
    assert(nemeth_alpha(s15));
    let s16 = crate::nemeth::spec_num_ind_9e_shape(s15);
    assert(nemeth_alpha(s16));
    let s17 = crate::nemeth::spec_num_ind_9f(s16);
    assert(nemeth_alpha(s17));
    let s18 = crate::nemeth::spec_num_ind_9b(s17, 0);
    lemma_num_ind_9b_alpha(s17, 0);
    let s19 = crate::nemeth::spec_level_ind(s18, 0);
    lemma_level_ind_alpha(s18, 0);
    let s20 = crate::nemeth::spec_level_baseline(s19, 0);
    lemma_level_baseline_alpha(s19, 0);
    let s21 = crate::nemeth::spec_punct_38(s20, 0);
    lemma_punct_38_alpha(s20, 0);
    let s22 = crate::nemeth::spec_nemeth_subst(s21, 0);
    lemma_nemeth_subst_closure(s21, 0);
    lemma_trim_cells(s22);
    lemma_collapse_cells(spec_trim_spaces(s22), 0);
}

/// The UEB marker alphabet handled by the final substitution, without
/// the hyphen, which the substitution keeps as a literal hyphen.
pub open spec fn is_ueb_marker(c: char) -> bool {
    c == '1' || c == '𝟙' || c == 'S' || c == 'B' || c == '𝔹' || c == 'T' || c == 'I' || c == 'R'
        || c == 'E' || c == 'D' || c == 'G' || c == 'V' || c == 'H' || c == 'P' || c == '𝐶' || c
        == '𝑐' || c == 'C' || c == 'L' || c == 'M' || c == 'N' || c == 'W' || c == '𝐖' || c == 's'
        || c == 'w' || c == 'e' || c == ',' || c == '.' || c == '—' || c == '―' || c == '#' || c
        == 'o' || c == 'c' || c == 'b'
}

/// The UEB substitution resolves every marker of its alphabet to cells,
/// given braille typeform prefixes from the preferences.
pub proof fn lemma_ueb_subst_closure(
    s: Seq<char>,
    i: int,
    ds: Seq<char>,
    ss: Seq<char>,
    fr: Seq<char>,
    gv: Seq<char>,
)
    requires
        0 <= i,
        forall|k: int| 0 <= k < s.len() ==> is_cell(#[trigger] s[k]) || is_ueb_marker(s[k]),
        all_cells(ds),
        all_cells(ss),
        all_cells(fr),
        all_cells(gv),
    ensures
        all_cells(crate::ueb::spec_ueb_subst(s, i, ds, ss, fr, gv)),
    decreases s.len() - i,
{
    if i < s.len() {
        lemma_ueb_subst_closure(s, i + 1, ds, ss, fr, gv);
        assert forall|j: int|
            0 <= j < crate::ueb::ueb_subst_char(s[i], ds, ss, fr, gv).len() implies is_cell(
            #[trigger] crate::ueb::ueb_subst_char(s[i], ds, ss, fr, gv)[j],
        ) by {
            assert(is_cell(s[i]) || is_ueb_marker(s[i]));
        }
    }
}

/// The Vietnamese substitution resolves the same alphabet to cells.
pub proof fn lemma_vietnam_subst_closure(
    s: Seq<char>,
    i: int,
    ds: Seq<char>,
    ss: Seq<char>,
    fr: Seq<char>,
    gv: Seq<char>,
)
    requires
        0 <= i,
        forall|k: int| 0 <= k < s.len() ==> is_cell(#[trigger] s[k]) || is_ueb_marker(s[k]),
        all_cells(ds),
        all_cells(ss),
        all_cells(fr),
        all_cells(gv),
    ensures
        all_cells(crate::vietnam::spec_vietnam_subst(s, i, ds, ss, fr, gv)),
    decreases s.len() - i,
{
    if i < s.len() {
        lemma_vietnam_subst_closure(s, i + 1, ds, ss, fr, gv);
        assert forall|j: int|
            0 <= j < crate::vietnam::vietnam_subst_char(s[i], ds, ss, fr, gv).len() implies is_cell(
            #[trigger] crate::vietnam::vietnam_subst_char(s[i], ds, ss, fr, gv)[j],
        ) by {
            assert(is_cell(s[i]) || is_ueb_marker(s[i]));
        }
    }
}

/// The CMU substitution resolves its whole alphabet, hyphen included,
/// to cells.
pub proof fn lemma_cmu_subst_closure(s: Seq<char>, i: int)
    requires
        0 <= i,
        forall|k: int|
            0 <= k < s.len() ==> is_cell(#[trigger] s[k]) || is_ueb_marker(s[k]) || s[k] == '-',
    ensures
        all_cells(crate::cmu::spec_cmu_subst(s, i)),
    decreases s.len() - i,
{
    if i < s.len() {
        lemma_cmu_subst_closure(s, i + 1);
        assert forall|j: int|
            0 <= j < crate::cmu::cmu_subst_char(s[i]).len() implies is_cell(
            #[trigger] crate::cmu::cmu_subst_char(s[i])[j],
        ) by {
            assert(is_cell(s[i]) || is_ueb_marker(s[i]) || s[i] == '-');
        }
    }
}

proof fn lemma_first_break_in_concat(s: Seq<char>, i: int, alen: int)
    requires
        0 <= i <= alen < s.len(),
        forall|k: int| 0 <= k < alen ==> #[trigger] s[k] != '𝐖',
        s[alen] == '𝐖',
    ensures
        crate::ueb::first_char_from(s, i, '𝐖') == alen,
    decreases alen - i,
{
    if i < alen {
        lemma_first_break_in_concat(s, i + 1, alen);
    }
}

proof fn lemma_no_break_from(s: Seq<char>, i: int)
    requires
        0 <= i <= s.len(),
        forall|k: int| i <= k < s.len() ==> #[trigger] s[k] != '𝐖',
    ensures
        crate::ueb::first_char_from(s, i, '𝐖') == s.len(),
    decreases s.len() - i,
{
    if i < s.len() {
        lemma_no_break_from(s, i + 1);
    }
}

/// Segment independence: the mode of each expression segment is chosen
/// from that segment alone, and the renderings are joined with one
/// soft space.
pub proof fn lemma_segment_independence(a: Seq<char>, b: Seq<char>, only_g1: bool)
    requires
        forall|k: int| 0 <= k < a.len() ==> #[trigger] a[k] != '𝐖',
        forall|k: int| 0 <= k < b.len() ==> #[trigger] b[k] != '𝐖',
    ensures
        crate::ueb::spec_segjoin(a + seq!['𝐖'] + b, 0, only_g1) == crate::ueb::spec_pick_start(
            a,
            only_g1,
        ) + seq!['W'] + crate::ueb::spec_pick_start(b, only_g1),
{
    let cat = a + seq!['𝐖'] + b;
    let alen = a.len() as int;
    assert(cat[alen] == '𝐖');
    assert(forall|k: int| 0 <= k < alen ==> #[trigger] cat[k] == a[k]);
    lemma_first_break_in_concat(cat, 0, alen);
    assert(cat.subrange(0, alen) =~= a);
    assert(forall|k: int|
        alen + 1 <= k < cat.len() ==> #[trigger] cat[k] == b[k - alen - 1] && cat[k] != '𝐖');
    lemma_no_break_from(cat, alen + 1);
    assert(cat.subrange(alen + 1, cat.len() as int) =~= b);
    assert(crate::ueb::spec_segjoin(cat, alen + 1, only_g1) == crate::ueb::spec_pick_start(
        b,
        only_g1,
    ));
}

/// Every character is a braille cell or a marker that the UEB-family
/// substitutions resolve.
pub open spec fn ueb_alpha(s: Seq<char>) -> bool {
    forall|k: int| 0 <= k < s.len() ==> is_cell(#[trigger] s[k]) || is_ueb_marker(s[k])
}

proof fn lemma_replace_lit_alpha(s: Seq<char>, i: int, pat: Seq<char>, rep: Seq<char>)
    requires
        ueb_alpha(s),
        ueb_alpha(rep),
        0 <= i,
        pat.len() > 0,
    ensures
        ueb_alpha(crate::ueb::replace_lit(s, i, pat, rep)),
    decreases s.len() - i,
{
    if i < s.len() {
        if crate::ueb::lit_at(s, i, pat) {
            lemma_replace_lit_alpha(s, i + pat.len(), pat, rep);
        } else {
            lemma_replace_lit_alpha(s, i + 1, pat, rep);
        }
    }
}

proof fn lemma_replace_pair_lit_alpha(s: Seq<char>, i: int, pat: Seq<char>, rep: Seq<char>)
    requires
        ueb_alpha(s),
        ueb_alpha(rep),
        0 <= i,
        pat.len() > 0,
    ensures
        ueb_alpha(crate::ueb::replace_pair_lit(s, i, pat, rep)),
    decreases s.len() - i,
{
    if i < s.len() {
        if s[i] == 'L' && crate::ueb::lit_at(s, i + 2, pat) {
            lemma_replace_pair_lit_alpha(s, i + 2 + pat.len(), pat, rep);
        } else {
            lemma_replace_pair_lit_alpha(s, i + 1, pat, rep);
        }
    }
}

proof fn lemma_replace_ea_alpha(s: Seq<char>, i: int)
    requires
        ueb_alpha(s),
        0 <= i,
    ensures
        ueb_alpha(crate::ueb::replace_ea(s, i)),
    decreases s.len() - i,
{
    if i < s.len() {
        if crate::ueb::ea_at(s, i) {
            lemma_replace_ea_alpha(s, i + 8);
        } else {
            lemma_replace_ea_alpha(s, i + 1);
        }
    }
}

proof fn lemma_contract_step_alpha(cur: Seq<char>, orig: Seq<char>, pat: Seq<char>, rep: Seq<
    char,
>)
    requires
        ueb_alpha(cur),
        ueb_alpha(rep),
        pat.len() > 0,
    ensures
        ueb_alpha(crate::ueb::contract_step(cur, orig, pat, rep)),
        ueb_alpha(crate::ueb::contract_pair_step(cur, orig, pat, rep)),
{
    lemma_replace_lit_alpha(cur, 0, pat, rep);
    lemma_replace_pair_lit_alpha(cur, 0, pat, rep);
}

/// The contraction engine only exchanges letter runs for cells and
/// letter pairs: its output stays in the marker alphabet.
pub proof fn lemma_contract_alpha(run: Seq<char>)
    requires
        ueb_alpha(run),
    ensures
        ueb_alpha(crate::ueb::spec_contract(run)),
{
    reveal(crate::ueb::spec_contract);
    let s1 = crate::ueb::contract_step(run, run, crate::ueb::pat_and(), seq!['L', '⠯']);
    lemma_contract_step_alpha(run, run, crate::ueb::pat_and(), seq!['L', '⠯']);
    let s2 = crate::ueb::contract_step(s1, run, crate::ueb::pat_for(), seq!['L', '⠿']);
    lemma_contract_step_alpha(s1, run, crate::ueb::pat_for(), seq!['L', '⠿']);
    let s3 = crate::ueb::contract_step(s2, run, crate::ueb::pat_of(), seq!['L', '⠷']);
    lemma_contract_step_alpha(s2, run, crate::ueb::pat_of(), seq!['L', '⠷']);
    let s4 = crate::ueb::contract_step(s3, run, crate::ueb::pat_the(), seq!['L', '⠮']);
    lemma_contract_step_alpha(s3, run, crate::ueb::pat_the(), seq!['L', '⠮']);
    let s5 = crate::ueb::contract_step(s4, run, crate::ueb::pat_with(), seq!['L', '⠾']);
    lemma_contract_step_alpha(s4, run, crate::ueb::pat_with(), seq!['L', '⠾']);
    let s6 = crate::ueb::contract_step(s5, run, crate::ueb::pat_ch(), seq!['L', '⠡']);
    lemma_contract_step_alpha(s5, run, crate::ueb::pat_ch(), seq!['L', '⠡']);
    let s7 = crate::ueb::contract_step(s6, run, crate::ueb::pat_in(), seq!['L', '⠔']);
    lemma_contract_step_alpha(s6, run, crate::ueb::pat_in(), seq!['L', '⠔']);
    let s8 = crate::ueb::contract_step(s7, run, crate::ueb::pat_sh(), seq!['L', '⠩']);
    lemma_contract_step_alpha(s7, run, crate::ueb::pat_sh(), seq!['L', '⠩']);
    let s9 = crate::ueb::contract_step(s8, run, crate::ueb::pat_ar(), seq!['L', '⠜']);
    lemma_contract_step_alpha(s8, run, crate::ueb::pat_ar(), seq!['L', '⠜']);
    let s10 = crate::ueb::contract_step(s9, run, crate::ueb::pat_er(), seq!['L', '⠻']);
    lemma_contract_step_alpha(s9, run, crate::ueb::pat_er(), seq!['L', '⠻']);
    let s11 = crate::ueb::contract_pair_step(s10, run, crate::ueb::pat_ment(), seq!['L', '⠰', 'L', '⠞']);
    lemma_contract_step_alpha(s10, run, crate::ueb::pat_ment(), seq!['L', '⠰', 'L', '⠞']);
    let s12 = crate::ueb::contract_pair_step(s11, run, crate::ueb::pat_tion(), seq!['L', '⠰', 'L', '⠝']);
    lemma_contract_step_alpha(s11, run, crate::ueb::pat_tion(), seq!['L', '⠰', 'L', '⠝']);
    if crate::ueb::contains_ea(run, 0) {
        lemma_replace_ea_alpha(s12, 0);
    }
}


/// The first highlighted cell of a stream whose prefix is unhighlighted
/// and whose cell at `p` is highlighted.
proof fn lemma_first_hl_between(s: Seq<char>, i: int, p: int)
    requires
        0 <= i <= p < s.len(),
        forall|k: int| i <= k < p ==> !is_highlighted_cell(#[trigger] s[k]),
        is_highlighted_cell(s[p]),
    ensures
        first_hl(s, i) == p,
    decreases p - i,
{
    if i < p {
        lemma_first_hl_between(s, i + 1, p);
    }
}

} // verus!