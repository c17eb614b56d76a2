//! Navigation highlight: after cleanup, the navigated region carries
//! dots 7 and 8.  The region start is moved backward over the indicator
//! cells that belong to the navigated glyph (capital, number, typeface,
//! language prefixes), and with `fill_range` the interior cells are
//! highlighted too.

use vstd::prelude::*;

use crate::cells::{
    is_cell, is_highlighted_cell, spec_highlight, spec_unhighlight,
};
use crate::nemeth::is_nemeth_digit;

verus! {

/// The braille codes the engine knows; the cleanup of any other code is
/// the identity.
#[derive(Clone, Copy, PartialEq, Eq, Structural)]
pub enum BrailleCode {
    Nemeth,
    Ueb,
    Vietnam,
    Cmu,
    Other,
}

/// The first highlighted cell at or after `i`, or the length.
pub open spec fn first_hl(s: Seq<char>, i: int) -> int
    decreases s.len() - i,
{
    if i < 0 || i >= s.len() {
        s.len() as int
    } else if is_highlighted_cell(s[i]) {
        i
    } else {
        first_hl(s, i + 1)
    }
}

/// The last highlighted cell strictly before `j`, or -1.
pub open spec fn last_hl(s: Seq<char>, j: int) -> int
    decreases j,
{
    if j <= 0 || j > s.len() {
        -1
    } else if is_highlighted_cell(s[j - 1]) {
        j - 1
    } else {
        last_hl(s, j - 1)
    }
}

/// A digit cell or the decimal point, as the Nemeth number indicator
/// sees them.
pub open spec fn is_nemeth_number_cell(c: char) -> bool {
    is_nemeth_digit(c) || c == '⠨'
}

/// How many indicator cells before `st` belong to the navigated Nemeth
/// glyph: at most one capital/number/typeface cell, then one language
/// prefix (a two-cell Russian, Greek-variant or Hebrew prefix counts
/// two).
pub open spec fn spec_start_nemeth(s: Seq<char>, st: int, lo: int) -> int {
    let first_ch = spec_unhighlight(s[st]);
    let step1: int = if st - 1 >= lo && (s[st - 1] == '⠠' || (s[st - 1] == '⠼'
        && is_nemeth_number_cell(first_ch)) || s[st - 1] == '⠸' || s[st - 1] == '⠈' || s[st - 1]
        == '⠨') {
        1
    } else {
        0
    };
    let p = st - 1 - step1;
    let step2: int = if p >= lo && (s[p] == '⠰' || s[p] == '⠸' || s[p] == '⠨') {
        1
    } else if p >= lo && (s[p] == '⠈' || s[p] == '⠠') {
        2
    } else {
        0
    };
    step1 + step2
}

/// The cells that may prefix a UEB symbol.
pub open spec fn is_ueb_prefix_cell(c: char) -> bool {
    c == '⠼' || c == '⠈' || c == '⠘' || c == '⠸' || c == '⠐' || c == '⠨' || c == '⠰' || c
        == '⠠'
}

pub open spec fn is_ueb_typeform_prefix(c: char) -> bool {
    c == '⠈' || c == '⠘' || c == '⠸' || c == '⠨'
}

/// How many indicator cells before `idx` belong to the navigated UEB
/// glyph: a greedy run of prefix cells, where a typeform sequence opened
/// by dots-23 may count two or three cells.
pub open spec fn spec_start_ueb(s: Seq<char>, idx: int, lo: int) -> int
    decreases idx - lo,
{
    if idx <= lo {
        0
    } else {
        let c = s[idx - 1];
        if is_ueb_prefix_cell(c) {
            1 + spec_start_ueb(s, idx - 1, lo)
        } else if c == '⠆' {
            if idx - 2 >= lo && is_ueb_typeform_prefix(s[idx - 2]) {
                2 + spec_start_ueb(s, idx - 2, lo)
            } else if idx - 3 >= lo && s[idx - 2] == '⠼' && (is_ueb_typeform_prefix(s[idx - 3])
                || s[idx - 3] == '⠐') {
                3 + spec_start_ueb(s, idx - 3, lo)
            } else {
                0
            }
        } else {
            0
        }
    }
}

/// The indicator count for the given code, clamped so that the new
/// region start cannot leave the stream.
pub open spec fn spec_start_shift(s: Seq<char>, code: BrailleCode, st: int) -> int {
    let lo: int = if st >= 5 {
        st - 5
    } else {
        0
    };
    let n: int = if code == BrailleCode::Nemeth {
        spec_start_nemeth(s, st, lo)
    } else if code == BrailleCode::Ueb {
        spec_start_ueb(s, st, lo)
    } else {
        0
    };
    if n > st {
        st
    } else {
        n
    }
}

/// The stream with the region start moved backward: the old first
/// highlighted cell is cleared (unless it is also the last one) and the
/// new start cell is highlighted.
pub open spec fn spec_move_start(s: Seq<char>, code: BrailleCode, st: int, en: int) -> Seq<char> {
    let i0 = st - spec_start_shift(s, code, st);
    if i0 < st {
        if st < en {
            s.update(st, spec_unhighlight(s[st])).update(i0, spec_highlight(s[i0]))
        } else {
            s.update(i0, spec_highlight(s[i0]))
        }
    } else {
        s
    }
}

/// The navigation overlay.  Without a highlighted cell the stream is
/// returned unchanged; otherwise the region start is extended backward
/// over leading indicators, and with `fill_range` every cell between
/// the new start and the last highlighted cell is highlighted.
pub open spec fn spec_highlight_braille(s: Seq<char>, code: BrailleCode, fill_range: bool) -> Seq<
    char,
> {
    let st = first_hl(s, 0);
    if st == s.len() {
        s
    } else {
        let en = last_hl(s, s.len() as int);
        let i0 = st - spec_start_shift(s, code, st);
        let s2 = spec_move_start(s, code, st, en);
        if i0 == en || !fill_range {
            s2
        } else {
            Seq::new(
                s2.len(),
                |k: int|
                    if i0 <= k < en {
                        spec_highlight(s2[k])
                    } else {
                        s2[k]
                    },
            )
        }
    }
}

fn start_nemeth_at(v: &Vec<char>, st: usize, lo: usize) -> (r: usize)
    requires
        lo <= st < v@.len(),
    ensures
        r as int == spec_start_nemeth(v@, st as int, lo as int),
{
    let first_ch = crate::cells::unhighlight(v[st]);
    let step1: usize = if st >= 1 && st - 1 >= lo && (v[st - 1] == '⠠' || (v[st - 1] == '⠼' && (
    crate::nemeth::nemeth_digit(first_ch) || first_ch == '⠨')) || v[st - 1] == '⠸' || v[st - 1]
        == '⠈' || v[st - 1] == '⠨') {
        1
    } else {
        0
    };
    let step2: usize = if st >= 1 + step1 && st - 1 - step1 >= lo {
        let p = st - 1 - step1;
        if v[p] == '⠰' || v[p] == '⠸' || v[p] == '⠨' {
            1
        } else if v[p] == '⠈' || v[p] == '⠠' {
            2
        } else {
            0
        }
    } else {
        0
    };
    step1 + step2
}

fn start_ueb_at(v: &Vec<char>, st: usize, lo: usize) -> (r: usize)
    requires
        lo <= st <= v@.len(),
    ensures
        r as int == spec_start_ueb(v@, st as int, lo as int),
        r <= st - lo,
{
    let mut idx = st;
    let mut n: usize = 0;
    loop
        invariant
            lo <= idx <= st <= v@.len(),
            n == st - idx,
            spec_start_ueb(v@, st as int, lo as int) == n + spec_start_ueb(
                v@,
                idx as int,
                lo as int,
            ),
        decreases idx,
    {
        if idx <= lo {
            return n;
        }
        let c = v[idx - 1];
        if c == '⠼' || c == '⠈' || c == '⠘' || c == '⠸' || c == '⠐' || c == '⠨' || c == '⠰'
            || c == '⠠' {
            idx = idx - 1;
            n = n + 1;
        } else if c == '⠆' {
            if idx >= 2 && idx - 2 >= lo && (v[idx - 2] == '⠈' || v[idx - 2] == '⠘' || v[idx - 2]
                == '⠸' || v[idx - 2] == '⠨') {
                idx = idx - 2;
                n = n + 2;
            } else if idx >= 3 && idx - 3 >= lo && v[idx - 2] == '⠼' && (v[idx - 3] == '⠈' || v[idx
                - 3] == '⠘' || v[idx - 3] == '⠸' || v[idx - 3] == '⠨' || v[idx - 3] == '⠐') {
                idx = idx - 3;
                n = n + 3;
            } else {
                return n;
            }
        } else {
            return n;
        }
    }
}

/// Overlay the navigation highlight on a cleaned-up braille stream.
pub fn highlight_braille_chars(braille: &str, code: BrailleCode, fill_range: bool) -> (r: String)
    ensures
        r@ == spec_highlight_braille(braille@, code, fill_range),
{
    let v = crate::strutil::to_chars(braille);
    let n = v.len();
    let mut st: usize = 0;
    while st < n && !crate::cells::is_highlighted(v[st])
        invariant
            st <= n == v@.len(),
            first_hl(v@, 0) == first_hl(v@, st as int),
        decreases n - st,
    {
        st = st + 1;
    }
    if st == n {
        return crate::strutil::from_chars(&v);
    }
    proof {
        assert(first_hl(v@, st as int) == st as int);
        assert(first_hl(v@, 0) == st as int);
    }
    let mut en: usize = n;
    while en > 0 && !crate::cells::is_highlighted(v[en - 1])
        invariant
            st < en <= n == v@.len(),
            is_highlighted_cell(v@[st as int]),
            last_hl(v@, n as int) == last_hl(v@, en as int),
        decreases en,
    {
        en = en - 1;
    }
    proof {
        assert(en > 0 && is_highlighted_cell(v@[en as int - 1]));
        assert(last_hl(v@, n as int) == en - 1);
    }
    let en = en - 1;
    let lo: usize = if st >= 5 {
        st - 5
    } else {
        0
    };
    let shift_raw: usize = if code == BrailleCode::Nemeth {
        start_nemeth_at(&v, st, lo)
    } else if code == BrailleCode::Ueb {
        start_ueb_at(&v, st, lo)
    } else {
        0
    };
    let shift = if shift_raw > st {
        st
    } else {
        shift_raw
    };
    proof {
        assert(shift as int == spec_start_shift(v@, code, st as int));
    }
    let i0 = st - shift;
    let mut w = v;
    if i0 < st {
        if st < en {
            let cleared = crate::cells::unhighlight(w[st]);
            w.set(st, cleared);
        }
        let lit = crate::cells::highlight(w[i0]);
        w.set(i0, lit);
    }
    proof {
        assert(w@ =~= spec_move_start(v@, code, st as int, en as int));
    }
    if i0 == en || !fill_range {
        return crate::strutil::from_chars(&w);
    }
    let mut out: Vec<char> = Vec::new();
    let mut k: usize = 0;
    while k < w.len()
        invariant
            k <= w@.len(),
            i0 < w@.len() && en < w@.len(),
            out@.len() == k,
            forall|j: int|
                0 <= j < k ==> out@[j] == (if i0 <= j < en {
                    spec_highlight(w@[j])
                } else {
                    w@[j]
                }),
        decreases w@.len() - k,
    {
        if i0 <= k && k < en {
            let h = crate::cells::highlight(w[k]);
            out.push(h);
        } else {
            out.push(w[k]);
        }
        k = k + 1;
    }
    proof {
        assert(out@ =~= spec_highlight_braille(braille@, code, fill_range));
    }
    crate::strutil::from_chars(&out)
}

} // verus!