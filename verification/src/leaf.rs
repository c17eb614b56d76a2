//! Leaf helpers: the string transformations applied when the raw
//! fragment for a single token is produced — applying a `mathvariant`
//! typeface, pulling Nemeth typeface prefixes to the front of a run,
//! marking enclosed-list letters, CMU number grouping, and the
//! Vietnamese number-style and Roman-numeral adjustments.

use vstd::prelude::*;

verus! {

/// A Nemeth typeface marker as it appears on a single character.
pub open spec fn is_nemeth_face(c: char) -> bool {
    c == 'S' || c == 'B' || c == '𝔹' || c == 'T' || c == 'I' || c == 'R'
}

/// A language marker.
pub open spec fn is_lang_marker(c: char) -> bool {
    c == 'E' || c == 'D' || c == 'G' || c == 'V' || c == 'H' || c == 'U'
}

/// The typeface run of one marked character, stopping short of the last
/// character of the stream (which is always the character body).
pub open spec fn face_run_len(s: Seq<char>, i: int) -> int
    decreases s.len() - i,
{
    if 0 <= i && i + 1 < s.len() && is_nemeth_face(s[i]) {
        1 + face_run_len(s, i + 1)
    } else {
        0
    }
}

/// One optional marker of the given class, again leaving the body free.
pub open spec fn opt_marker(s: Seq<char>, j: int, hit: bool) -> int {
    if 0 <= j && j + 1 < s.len() && hit {
        1
    } else {
        0
    }
}

/// The position one past the marked character starting at `i`.
pub open spec fn token_end(s: Seq<char>, i: int) -> int {
    let f = face_run_len(s, i);
    let lang = opt_marker(s, i + f, i + f < s.len() && is_lang_marker(s[i + f]));
    let j1 = i + f + lang;
    let cap = opt_marker(s, j1, j1 < s.len() && s[j1] == 'C');
    let j2 = j1 + cap;
    let letter = opt_marker(s, j2, j2 < s.len() && s[j2] == 'L');
    let j3 = j2 + letter;
    let num = opt_marker(s, j3, j3 < s.len() && s[j3] == 'N');
    j3 + num + 1
}

/// Whether the marked character starting at `i` carries a capital marker.
pub open spec fn token_cap(s: Seq<char>, i: int) -> bool {
    let f = face_run_len(s, i);
    let lang = opt_marker(s, i + f, i + f < s.len() && is_lang_marker(s[i + f]));
    let j1 = i + f + lang;
    opt_marker(s, j1, j1 < s.len() && s[j1] == 'C') == 1
}

/// The emission for the marked character starting at `i` under the
/// current typeface, and the state for the next one.  Nemeth pulls the
/// typeface out only when it changes; the number marker is kept at a
/// typeface change or outside an enclosed-list numeral; enclosed-list
/// letters are marked with 'l'.
#[verifier::opaque]
pub open spec fn nemeth_token(
    s: Seq<char>,
    i: int,
    tf: Seq<char>,
    attr: char,
    encl: bool,
    mn_encl: bool,
) -> (Seq<char>, Seq<char>, int) {
    let f = face_run_len(s, i);
    let lang = opt_marker(s, i + f, i + f < s.len() && is_lang_marker(s[i + f]));
    let j1 = i + f + lang;
    let cap = opt_marker(s, j1, j1 < s.len() && s[j1] == 'C');
    let j2 = j1 + cap;
    let letter = opt_marker(s, j2, j2 < s.len() && s[j2] == 'L');
    let j3 = j2 + letter;
    let num = opt_marker(s, j3, j3 < s.len() && s[j3] == 'N');
    let j4 = j3 + num;
    let char_face: Seq<char> = if f == 0 {
        seq![attr]
    } else {
        s.subrange(i, i + f)
    };
    let changed = char_face != tf;
    let head: Seq<char> = if changed {
        char_face + s.subrange(i + f, i + f + lang)
    } else {
        s.subrange(i + f, i + f + lang)
    };
    let numpart: Seq<char> = if num == 1 && (changed || !mn_encl) {
        seq!['N']
    } else {
        Seq::empty()
    };
    let cappart = s.subrange(j1, j1 + cap);
    let letterpart: Seq<char> = if letter == 1 {
        if encl {
            seq!['l']
        } else {
            seq!['L']
        }
    } else {
        Seq::empty()
    };
    let emitted = head + numpart + cappart + letterpart + seq![s[j4]];
    let tf2: Seq<char> = if changed {
        char_face
    } else {
        tf
    };
    (emitted, tf2, token_end(s, i))
}

/// Definitional view of one token for callers of the opaque parser.
pub proof fn lemma_nemeth_token(
    s: Seq<char>,
    i: int,
    tf: Seq<char>,
    attr: char,
    encl: bool,
    mn_encl: bool,
)
    ensures
        ({
            let f = face_run_len(s, i);
            let lang = opt_marker(s, i + f, i + f < s.len() && is_lang_marker(s[i + f]));
            let j1 = i + f + lang;
            let cap = opt_marker(s, j1, j1 < s.len() && s[j1] == 'C');
            let j2 = j1 + cap;
            let letter = opt_marker(s, j2, j2 < s.len() && s[j2] == 'L');
            let j3 = j2 + letter;
            let num = opt_marker(s, j3, j3 < s.len() && s[j3] == 'N');
            let j4 = j3 + num;
            let char_face: Seq<char> = if f == 0 {
                seq![attr]
            } else {
                s.subrange(i, i + f)
            };
            let changed = char_face != tf;
            let head: Seq<char> = if changed {
                char_face + s.subrange(i + f, i + f + lang)
            } else {
                s.subrange(i + f, i + f + lang)
            };
            let numpart: Seq<char> = if num == 1 && (changed || !mn_encl) {
                seq!['N']
            } else {
                Seq::empty()
            };
            let cappart = s.subrange(j1, j1 + cap);
            let letterpart: Seq<char> = if letter == 1 {
                if encl {
                    seq!['l']
                } else {
                    seq!['L']
                }
            } else {
                Seq::empty()
            };
            let tf2: Seq<char> = if changed {
                char_face
            } else {
                tf
            };
            nemeth_token(s, i, tf, attr, encl, mn_encl) == (
                head + numpart + cappart + letterpart + seq![s[j4]],
                tf2,
                token_end(s, i),
            )
        }),
{
    reveal(nemeth_token);
}

/// The Nemeth per-character rewrite over a whole marked fragment.
pub open spec fn nemeth_leaf_rec(
    s: Seq<char>,
    i: int,
    tf: Seq<char>,
    attr: char,
    encl: bool,
    mn_encl: bool,
) -> Seq<char>
    decreases s.len() - i,
    via nemeth_leaf_rec_decreases
{
    if i < 0 || i >= s.len() {
        Seq::empty()
    } else {
        let t = nemeth_token(s, i, tf, attr, encl, mn_encl);
        t.0 + nemeth_leaf_rec(s, token_end(s, i), t.1, attr, encl, mn_encl)
    }
}

proof fn lemma_face_run_bounds(s: Seq<char>, i: int)
    requires
        0 <= i,
    ensures
        0 <= face_run_len(s, i),
        i + face_run_len(s, i) < s.len() || face_run_len(s, i) == 0,
    decreases s.len() - i,
{
    if i + 1 < s.len() && is_nemeth_face(s[i]) {
        lemma_face_run_bounds(s, i + 1);
    }
}

#[via_fn]
proof fn nemeth_leaf_rec_decreases(
    s: Seq<char>,
    i: int,
    tf: Seq<char>,
    attr: char,
    encl: bool,
    mn_encl: bool,
) {
    if 0 <= i && i < s.len() {
        lemma_face_run_bounds(s, i);
    }
}

/// Does every marked character of the fragment carry a capital marker?
pub open spec fn nemeth_all_caps(s: Seq<char>, i: int) -> bool
    decreases s.len() - i,
    via nemeth_all_caps_decreases
{
    if i < 0 || i >= s.len() {
        true
    } else if !token_cap(s, i) {
        false
    } else {
        nemeth_all_caps(s, token_end(s, i))
    }
}

#[via_fn]
proof fn nemeth_all_caps_decreases(s: Seq<char>, i: int) {
    if 0 <= i && i < s.len() {
        lemma_face_run_bounds(s, i);
    }
}

/// The Nemeth leaf rewrite: pull typefaces to the front of same-face
/// runs, keep number markers only where needed, mark enclosed-list
/// letters, and collapse an all-capital multi-character token to one
/// leading double-capital marker.
pub open spec fn spec_nemeth_leaf(
    s: Seq<char>,
    attr: char,
    encl: bool,
    mn_encl: bool,
    text_len: int,
) -> Seq<char> {
    let body = nemeth_leaf_rec(s, 0, seq!['R'], attr, encl, mn_encl);
    if s.len() > 0 && nemeth_all_caps(s, 0) && text_len >= 2 {
        seq!['C', 'C'] + crate::ueb::remove_char(body, 'C', 0)
    } else {
        body
    }
}

/// The group boundaries of the marked character at `i`: face-run
/// length, language/cap/letter/number flags, and the body position.
#[verifier::spinoff_prover]
fn token_groups(v: &Vec<char>, i: usize) -> (g: (usize, usize, usize, usize, usize, usize))
    requires
        i < v@.len(),
    ensures
        g.0 as int == face_run_len(v@, i as int),
        ({
            let f = g.0 as int;
            let lang = opt_marker(v@, i + f, i + f < v@.len() && is_lang_marker(v@[i + f]));
            let j1 = i + f + lang;
            let cap = opt_marker(v@, j1, j1 < v@.len() && v@[j1] == 'C');
            let j2 = j1 + cap;
            let letter = opt_marker(v@, j2, j2 < v@.len() && v@[j2] == 'L');
            let j3 = j2 + letter;
            let num = opt_marker(v@, j3, j3 < v@.len() && v@[j3] == 'N');
            g.1 as int == lang && g.2 as int == cap && g.3 as int == letter && g.4 as int == num
                && g.5 as int == j3 + num && g.5 < v@.len()
        }),
{
    let n = v.len();
    let mut f: usize = 0;
    while n - (i + f) > 1 && (v[i + f] == 'S' || v[i + f] == 'B' || v[i + f] == '𝔹' || v[i + f]
        == 'T' || v[i + f] == 'I' || v[i + f] == 'R')
        invariant
            i + f < n == v@.len(),
            face_run_len(v@, i as int) == f + face_run_len(v@, (i + f) as int),
        decreases n - i - f,
    {
        f = f + 1;
    }
    proof {
        assert(face_run_len(v@, (i + f) as int) == 0);
    }
    let j = i + f;
    let lang: usize = if j + 1 < n && (v[j] == 'E' || v[j] == 'D' || v[j] == 'G' || v[j] == 'V'
        || v[j] == 'H' || v[j] == 'U') {
        1
    } else {
        0
    };
    let j1 = j + lang;
    let cap: usize = if j1 + 1 < n && v[j1] == 'C' {
        1
    } else {
        0
    };
    let j2 = j1 + cap;
    let letter: usize = if j2 + 1 < n && v[j2] == 'L' {
        1
    } else {
        0
    };
    let j3 = j2 + letter;
    let num: usize = if j3 + 1 < n && v[j3] == 'N' {
        1
    } else {
        0
    };
    (f, lang, cap, letter, num, j3 + num)
}

/// Assemble the emission of one marked character from its groups.
#[verifier::spinoff_prover]
fn assemble_token(
    v: &Vec<char>,
    i: usize,
    f: usize,
    lang: usize,
    cap: usize,
    letter: usize,
    num: usize,
    j4: usize,
    changed: bool,
    char_face: &Vec<char>,
    encl: bool,
    mn_encl: bool,
) -> (em: Vec<char>)
    requires
        i + f + lang <= v@.len(),
        i + f + lang + cap <= v@.len(),
        j4 < v@.len(),
    ensures
        em@ == (if changed {
            char_face@ + v@.subrange((i + f) as int, (i + f + lang) as int)
        } else {
            v@.subrange((i + f) as int, (i + f + lang) as int)
        }) + (if num == 1 && (changed || !mn_encl) {
            seq!['N']
        } else {
            Seq::empty()
        }) + v@.subrange((i + f + lang) as int, (i + f + lang + cap) as int) + (if letter == 1 {
            if encl {
                seq!['l']
            } else {
                seq!['L']
            }
        } else {
            Seq::empty()
        }) + seq![v@[j4 as int]],
{
    let n = v.len();
    proof {
        assert(i + f + lang + cap <= n);
    }
    let j1 = i + f + lang;
    let mut emitted: Vec<char> = Vec::new();
    if changed {
        crate::strutil::push_all(&mut emitted, char_face);
    }
    crate::strutil::push_range(&mut emitted, v, i + f, i + f + lang);
    if num == 1 && (changed || !mn_encl) {
        emitted.push('N');
    }
    crate::strutil::push_range(&mut emitted, v, j1, j1 + cap);
    if letter == 1 {
        if encl {
            emitted.push('l');
        } else {
            emitted.push('L');
        }
    }
    emitted.push(v[j4]);
    proof {
        assert(emitted@ =~= (if changed {
            char_face@ + v@.subrange((i + f) as int, (i + f + lang) as int)
        } else {
            v@.subrange((i + f) as int, (i + f + lang) as int)
        }) + (if num == 1 && (changed || !mn_encl) {
            seq!['N']
        } else {
            Seq::empty()
        }) + v@.subrange((i + f + lang) as int, (i + f + lang + cap) as int) + (if letter == 1 {
            if encl {
                seq!['l']
            } else {
                seq!['L']
            }
        } else {
            Seq::empty()
        }) + seq![v@[j4 as int]]);
    }
    emitted
}

#[verifier::rlimit(100)]
#[verifier::spinoff_prover]
fn nemeth_token_at(v: &Vec<char>, i: usize, tf: &Vec<char>, attr: char, encl: bool, mn_encl: bool) -> (r: (Vec<char>, Vec<char>, usize, bool))
    requires
        i < v@.len(),
    ensures
        ({
            let t = nemeth_token(v@, i as int, tf@, attr, encl, mn_encl);
            r.0@ == t.0 && r.1@ == t.1 && r.2 as int == token_end(v@, i as int) && i < r.2
                <= v@.len() && r.3 == token_cap(v@, i as int)
        }),
{
    let n = v.len();
    let g = token_groups(v, i);
    let f = g.0;
    let lang = g.1;
    let cap = g.2;
    let letter = g.3;
    let num = g.4;
    let j4 = g.5;
    proof {
        assert(j4 < n);
    }
    let mut char_face: Vec<char> = Vec::new();
    if f == 0 {
        char_face.push(attr);
    } else {
        crate::strutil::push_range(&mut char_face, v, i, i + f);
    }
    proof {
        assert(char_face@ =~= (if f == 0 {
            seq![attr]
        } else {
            v@.subrange(i as int, i + f)
        }));
    }
    let changed = {
        let a = crate::strutil::from_chars(&char_face);
        let b = crate::strutil::from_chars(tf);
        !a.eq(&b)
    };
    let emitted = assemble_token(v, i, f, lang, cap, letter, num, j4, changed, &char_face, encl, mn_encl);
    let tf2 = if changed {
        char_face
    } else {
        let mut c: Vec<char> = Vec::new();
        crate::strutil::push_all(&mut c, tf);
        c
    };
    proof {
        lemma_nemeth_token(v@, i as int, tf@, attr, encl, mn_encl);
        let t = nemeth_token(v@, i as int, tf@, attr, encl, mn_encl);
        assert(emitted@ == t.0);
        assert(tf2@ =~= t.1);
    }
    (emitted, tf2, j4 + 1, cap == 1)
}

/// The Nemeth leaf rewrite over a marked fragment; `text_len` is the
/// number of source characters of the token.
pub fn nemeth_leaf_markers(
    braille_chars: &str,
    attr_typeface: char,
    in_enclosed_list: bool,
    mn_in_enclosed_list: bool,
    text_len: usize,
) -> (r: String)
    ensures
        r@ == spec_nemeth_leaf(
            braille_chars@,
            attr_typeface,
            in_enclosed_list,
            mn_in_enclosed_list,
            text_len as int,
        ),
{
    let v = crate::strutil::to_chars(braille_chars);
    let mut body: Vec<char> = Vec::new();
    let mut tf: Vec<char> = Vec::new();
    tf.push('R');
    proof {
        assert(tf@ =~= seq!['R']);
    }
    let mut all_caps = true;
    let mut i: usize = 0;
    while i < v.len()
        invariant
            i <= v@.len(),
            nemeth_leaf_rec(v@, 0, seq!['R'], attr_typeface, in_enclosed_list, mn_in_enclosed_list)
                == body@ + nemeth_leaf_rec(
                v@,
                i as int,
                tf@,
                attr_typeface,
                in_enclosed_list,
                mn_in_enclosed_list,
            ),
            nemeth_all_caps(v@, 0) == (all_caps && nemeth_all_caps(v@, i as int)),
        decreases v@.len() - i,
    {
        let t = nemeth_token_at(&v, i, &tf, attr_typeface, in_enclosed_list, mn_in_enclosed_list);
        crate::strutil::push_all(&mut body, &t.0);
        tf = t.1;
        i = t.2;
        if !t.3 {
            all_caps = false;
        }
        proof {
            assert(nemeth_leaf_rec(
                v@,
                0,
                seq!['R'],
                attr_typeface,
                in_enclosed_list,
                mn_in_enclosed_list,
            ) =~= body@ + nemeth_leaf_rec(
                v@,
                i as int,
                tf@,
                attr_typeface,
                in_enclosed_list,
                mn_in_enclosed_list,
            ));
        }
    }
    if v.len() > 0 && all_caps && text_len >= 2 {
        let stripped = crate::ueb::vec_remove_char(&body, 'C');
        let mut out: Vec<char> = Vec::new();
        out.push('C');
        out.push('C');
        crate::strutil::push_all(&mut out, &stripped);
        proof {
            assert(out@ =~= spec_nemeth_leaf(
                braille_chars@,
                attr_typeface,
                in_enclosed_list,
                mn_in_enclosed_list,
                text_len as int,
            ));
        }
        crate::strutil::from_chars(&out)
    } else {
        crate::strutil::from_chars(&body)
    }
}

/// The scan positions inside one marked UEB character: after the
/// optional bold, italic, typeface, single-indicator, capital and Greek
/// markers in that order.
pub open spec fn vt_q1(s: Seq<char>, i: int) -> int {
    if 0 <= i && i < s.len() && s[i] == 'B' {
        i + 1
    } else {
        i
    }
}

pub open spec fn vt_q2(s: Seq<char>, i: int) -> int {
    let q = vt_q1(s, i);
    if q < s.len() && s[q] == 'I' {
        q + 1
    } else {
        q
    }
}

pub open spec fn vt_q3(s: Seq<char>, i: int) -> int {
    let q = vt_q2(s, i);
    if q < s.len() && (s[q] == 'S' || s[q] == '𝔹' || s[q] == 'T' || s[q] == 'D') {
        q + 1
    } else {
        q
    }
}

pub open spec fn vt_q4(s: Seq<char>, i: int) -> int {
    let q = vt_q3(s, i);
    if q < s.len() && s[q] == 's' {
        q + 1
    } else {
        q
    }
}

pub open spec fn vt_q5(s: Seq<char>, i: int) -> int {
    let q = vt_q4(s, i);
    if q < s.len() && s[q] == 'C' {
        q + 1
    } else {
        q
    }
}

pub open spec fn vt_q6(s: Seq<char>, i: int) -> int {
    let q = vt_q5(s, i);
    if q < s.len() && s[q] == 'G' {
        q + 1
    } else {
        q
    }
}

/// One marked UEB character: optional bold, italic, typeface, single
/// indicator, capital and Greek markers, then a letter or number pair.
/// Returns its flags and the pair position, or None.
pub open spec fn ueb_leaf_match(s: Seq<char>, i: int) -> Option<
    (bool, bool, Option<char>, bool, bool, int),
> {
    let q6 = vt_q6(s, i);
    if 0 <= i && q6 + 1 < s.len() && (s[q6] == 'N' || s[q6] == 'L') {
        Some(
            (
                vt_q1(s, i) != i,
                vt_q2(s, i) != vt_q1(s, i),
                if vt_q3(s, i) != vt_q2(s, i) {
                    Some(s[vt_q2(s, i)])
                } else {
                    None
                },
                vt_q5(s, i) != vt_q4(s, i),
                vt_q6(s, i) != vt_q5(s, i),
                q6,
            ),
        )
    } else {
        None
    }
}

/// Apply a `mathvariant` to a marked UEB or CMU fragment: bold and
/// italic flags are merged into each marked character, and a typeface
/// from the attribute fills in where the character has none; the
/// single-symbol indicator is dropped.
#[verifier::opaque]
pub open spec fn spec_ueb_leaf(
    s: Seq<char>,
    i: int,
    bold: bool,
    italic: bool,
    face: Option<char>,
) -> Seq<char>
    decreases s.len() - i,
    via spec_ueb_leaf_decreases
{
    if i < 0 || i >= s.len() {
        Seq::empty()
    } else {
        match ueb_leaf_match(s, i) {
            Some(m) => {
                let bpart: Seq<char> = if bold || m.0 {
                    seq!['B']
                } else {
                    Seq::empty()
                };
                let ipart: Seq<char> = if italic || m.1 {
                    seq!['I']
                } else {
                    Seq::empty()
                };
                let fpart: Seq<char> = match m.2 {
                    Some(c) => seq![c],
                    None => match face {
                        Some(c) => seq![c],
                        None => Seq::empty(),
                    },
                };
                let cpart: Seq<char> = if m.3 {
                    seq!['C']
                } else {
                    Seq::empty()
                };
                let gpart: Seq<char> = if m.4 {
                    seq!['G']
                } else {
                    Seq::empty()
                };
                bpart + ipart + fpart + cpart + gpart + seq![s[m.5], s[m.5 + 1]] + spec_ueb_leaf(
                    s,
                    m.5 + 2,
                    bold,
                    italic,
                    face,
                )
            },
            None => seq![s[i]] + spec_ueb_leaf(s, i + 1, bold, italic, face),
        }
    }
}

#[via_fn]
proof fn spec_ueb_leaf_decreases(s: Seq<char>, i: int, bold: bool, italic: bool, face: Option<
    char,
>) {
}

/// Definitional step of the `mathvariant` rewrite, stated over the
/// scanned flags of the marked character.
#[verifier::rlimit(100)]
pub proof fn lemma_ueb_leaf_step_some(
    s: Seq<char>,
    i: int,
    bold: bool,
    italic: bool,
    face: Option<char>,
    hb: bool,
    hi: bool,
    hf: bool,
    fc: char,
    hc: bool,
    hg: bool,
    q: int,
)
    requires
        0 <= i < s.len(),
        q == vt_q6(s, i),
        q + 1 < s.len(),
        s[q] == 'N' || s[q] == 'L',
        hb == (vt_q1(s, i) != i),
        hi == (vt_q2(s, i) != vt_q1(s, i)),
        hf == (vt_q3(s, i) != vt_q2(s, i)),
        hf ==> fc == s[vt_q2(s, i)],
        hc == (vt_q5(s, i) != vt_q4(s, i)),
        hg == (vt_q6(s, i) != vt_q5(s, i)),
    ensures
        spec_ueb_leaf(s, i, bold, italic, face) == tok_emit(
            hb,
            hi,
            hf,
            fc,
            hc,
            hg,
            s[q],
            s[q + 1],
            bold,
            italic,
            face,
        ) + spec_ueb_leaf(s, q + 2, bold, italic, face),
{
    reveal(spec_ueb_leaf);
    reveal(tok_emit);
    assert(spec_ueb_leaf(s, i, bold, italic, face) =~= tok_emit(
        hb,
        hi,
        hf,
        fc,
        hc,
        hg,
        s[q],
        s[q + 1],
        bold,
        italic,
        face,
    ) + spec_ueb_leaf(s, q + 2, bold, italic, face));
}

/// The passthrough step where no marked character starts at `i`.
pub proof fn lemma_ueb_leaf_step_none(
    s: Seq<char>,
    i: int,
    bold: bool,
    italic: bool,
    face: Option<char>,
)
    requires
        0 <= i < s.len(),
        !(vt_q6(s, i) + 1 < s.len() && (s[vt_q6(s, i)] == 'N' || s[vt_q6(s, i)] == 'L')),
    ensures
        spec_ueb_leaf(s, i, bold, italic, face) == seq![s[i]] + spec_ueb_leaf(
            s,
            i + 1,
            bold,
            italic,
            face,
        ),
{
    reveal(spec_ueb_leaf);
}

/// The rewrite of an exhausted fragment is empty.
pub proof fn lemma_ueb_leaf_end(s: Seq<char>, i: int, bold: bool, italic: bool, face: Option<
    char,
>)
    requires
        i >= s.len(),
    ensures
        spec_ueb_leaf(s, i, bold, italic, face) == Seq::<char>::empty(),
{
    reveal(spec_ueb_leaf);
}

/// The cells emitted for one marked character under the variant flags.
#[verifier::opaque]
pub open spec fn tok_emit(
    hb: bool,
    hi: bool,
    hf: bool,
    fc: char,
    hc: bool,
    hg: bool,
    b1: char,
    b2: char,
    bold: bool,
    italic: bool,
    face: Option<char>,
) -> Seq<char> {
    (if bold || hb {
            seq!['B']
        } else {
            Seq::<char>::empty()
        }) + (if italic || hi {
            seq!['I']
        } else {
            Seq::<char>::empty()
        }) + (if hf {
            seq![fc]
        } else {
            match face {
                Some(c) => seq![c],
                None => Seq::<char>::empty(),
            }
        }) + (if hc {
            seq!['C']
        } else {
            Seq::<char>::empty()
        }) + (if hg {
            seq!['G']
        } else {
            Seq::<char>::empty()
        }) + seq![b1, b2]
}

/// Emit one rewritten marked character.
#[verifier::rlimit(100)]
#[verifier::spinoff_prover]
fn variant_emit(
    out: &mut Vec<char>,
    hb: bool,
    hi: bool,
    hf: bool,
    fc: char,
    hc: bool,
    hg: bool,
    b1: char,
    b2: char,
    bold: bool,
    italic: bool,
    face: Option<char>,
)
    ensures
        final(out)@ == old(out)@ + tok_emit(hb, hi, hf, fc, hc, hg, b1, b2, bold, italic, face),
{
    proof {
        reveal(tok_emit);
    }
    if bold || hb {
        out.push('B');
    }
    if italic || hi {
        out.push('I');
    }
    if hf {
        out.push(fc);
    } else {
        match face {
            Some(c) => out.push(c),
            None => {},
        }
    }
    if hc {
        out.push('C');
    }
    if hg {
        out.push('G');
    }
    out.push(b1);
    out.push(b2);
    proof {
        assert(out@ =~= old(out)@ + tok_emit(hb, hi, hf, fc, hc, hg, b1, b2, bold, italic, face));
    }
}

/// Scan the marker flags of one marked character.
#[verifier::rlimit(100)]
#[verifier::spinoff_prover]
fn variant_scan(v: &Vec<char>, i: usize) -> (t: (bool, bool, bool, char, bool, bool, usize))
    requires
        i < v@.len(),
    ensures
        t.0 == (vt_q1(v@, i as int) != i as int),
        t.1 == (vt_q2(v@, i as int) != vt_q1(v@, i as int)),
        t.2 == (vt_q3(v@, i as int) != vt_q2(v@, i as int)),
        t.2 ==> t.3 == v@[vt_q2(v@, i as int)],
        t.4 == (vt_q5(v@, i as int) != vt_q4(v@, i as int)),
        t.5 == (vt_q6(v@, i as int) != vt_q5(v@, i as int)),
        t.6 as int == vt_q6(v@, i as int),
        i <= t.6 <= v@.len(),
{
    let n = v.len();
    let mut q = i;
    let hb = v[q] == 'B';
    if hb {
        q = q + 1;
    }
    proof {
        assert(q as int == vt_q1(v@, i as int));
    }
    let hi = q < n && v[q] == 'I';
    if hi {
        q = q + 1;
    }
    proof {
        assert(q as int == vt_q2(v@, i as int));
    }
    let hf = q < n && (v[q] == 'S' || v[q] == '𝔹' || v[q] == 'T' || v[q] == 'D');
    let fc = if hf {
        v[q]
    } else {
        ' '
    };
    if hf {
        q = q + 1;
    }
    proof {
        assert(q as int == vt_q3(v@, i as int));
    }
    let hs = q < n && v[q] == 's';
    if hs {
        q = q + 1;
    }
    proof {
        assert(q as int == vt_q4(v@, i as int));
    }
    let hc = q < n && v[q] == 'C';
    if hc {
        q = q + 1;
    }
    proof {
        assert(q as int == vt_q5(v@, i as int));
    }
    let hg = q < n && v[q] == 'G';
    if hg {
        q = q + 1;
    }
    proof {
        assert(q as int == vt_q6(v@, i as int));
    }
    (hb, hi, hf, fc, hc, hg, q)
}

/// One step of the `mathvariant` application.
#[verifier::rlimit(100)]
#[verifier::spinoff_prover]
fn variant_step(
    v: &Vec<char>,
    i: usize,
    bold: bool,
    italic: bool,
    face: Option<char>,
    out: &mut Vec<char>,
) -> (ni: usize)
    requires
        i < v@.len(),
    ensures
        old(out)@ + spec_ueb_leaf(v@, i as int, bold, italic, face) == final(out)@
            + spec_ueb_leaf(v@, ni as int, bold, italic, face),
        i < ni <= v@.len(),
{
    let n = v.len();
    let ghost pre = spec_ueb_leaf(v@, i as int, bold, italic, face);
    let t = variant_scan(v, i);
    let hb = t.0;
    let hi = t.1;
    let hf = t.2;
    let fc = t.3;
    let hc = t.4;
    let hg = t.5;
    let q = t.6;
    if n - q > 1 && (v[q] == 'N' || v[q] == 'L') {
        variant_emit(out, hb, hi, hf, fc, hc, hg, v[q], v[q + 1], bold, italic, face);
        proof {
            lemma_ueb_leaf_step_some(
                v@,
                i as int,
                bold,
                italic,
                face,
                hb,
                hi,
                hf,
                fc,
                hc,
                hg,
                q as int,
            );
            assert(old(out)@ + pre =~= out@ + spec_ueb_leaf(v@, q as int + 2, bold, italic, face));
        }
        q + 2
    } else {
        out.push(v[i]);
        proof {
            lemma_ueb_leaf_step_none(v@, i as int, bold, italic, face);
            assert(old(out)@ + pre =~= out@ + spec_ueb_leaf(
                v@,
                i as int + 1,
                bold,
                italic,
                face,
            ));
        }
        i + 1
    }
}

/// Apply the `mathvariant` flags to a marked fragment (UEB and CMU).
pub fn apply_math_variant(
    braille_chars: &str,
    bold: bool,
    italic: bool,
    face: Option<char>,
) -> (r: String)
    ensures
        r@ == spec_ueb_leaf(braille_chars@, 0, bold, italic, face),
{
    let v = crate::strutil::to_chars(braille_chars);
    let n = v.len();
    let mut out: Vec<char> = Vec::new();
    let mut i: usize = 0;
    while i < n
        invariant
            i <= n == v@.len(),
            spec_ueb_leaf(v@, 0, bold, italic, face) == out@ + spec_ueb_leaf(
                v@,
                i as int,
                bold,
                italic,
                face,
            ),
        decreases n - i,
    {
        i = variant_step(&v, i, bold, italic, face, &mut out);
    }
    proof {
        lemma_ueb_leaf_end(v@, i as int, bold, italic, face);
        assert(out@ =~= spec_ueb_leaf(v@, 0, bold, italic, face));
    }
    crate::strutil::from_chars(&out)
}

/// An ASCII digit.
pub open spec fn is_digit(c: char) -> bool {
    '0' <= c && c <= '9'
}

/// The length of the digit run starting at `i`.
pub open spec fn digit_run(s: Seq<char>, i: int) -> int
    decreases s.len() - i,
{
    if 0 <= i && i < s.len() && is_digit(s[i]) {
        1 + digit_run(s, i + 1)
    } else {
        0
    }
}

/// The space-separated thousands groups of a spaced number, after its
/// one-to-three-digit head: zero or more of (space, three digits), then
/// an optional decimal comma.
pub open spec fn spaced_groups(s: Seq<char>, i: int) -> bool
    decreases s.len() - i,
{
    if i < 0 {
        false
    } else if i == s.len() {
        true
    } else if s[i] == ' ' {
        i + 3 < s.len() && is_digit(s[i + 1]) && is_digit(s[i + 2]) && is_digit(s[i + 3])
            && spaced_groups(s, i + 4)
    } else if s[i] == ',' {
        digit_run(s, i + 1) == s.len() - (i + 1)
    } else {
        false
    }
}

/// A number written with spaces as thousands separators and a comma as
/// the decimal separator.
pub open spec fn is_spaced_number(s: Seq<char>) -> bool {
    let r = digit_run(s, 0);
    s.len() > 0 && is_digit(s[0]) && s[0] != '0' && 1 <= r <= 3 && spaced_groups(s, r)
}

/// A plain number of four or more digits, with an optional decimal
/// comma, that is owed thousands grouping.
pub open spec fn is_block_number(s: Seq<char>) -> bool {
    let r = digit_run(s, 0);
    s.len() > 0 && is_digit(s[0]) && s[0] != '0' && r >= 4 && (r == s.len() || (s[r] == ','
        && digit_run(s, r + 1) == s.len() - (r + 1)))
}

/// The digits with a '.' inserted before every position a multiple of
/// three from the right.
pub open spec fn group_digits(d: Seq<char>, idx: int) -> Seq<char>
    decreases d.len() - idx,
{
    if idx < 0 || idx >= d.len() {
        Seq::empty()
    } else if idx > 0 && (d.len() - idx) % 3 == 0 {
        seq!['.', d[idx]] + group_digits(d, idx + 1)
    } else {
        seq![d[idx]] + group_digits(d, idx + 1)
    }
}

/// Spaces of a spaced number replaced by dots.
pub open spec fn spaces_to_dots(s: Seq<char>) -> Seq<char> {
    Seq::new(
        s.len(),
        |k: int|
            if s[k] == ' ' {
                '.'
            } else {
                s[k]
            },
    )
}

/// CMU number and function-name separators: spaces inside a spaced
/// number become dots, a plain long number gets dots as thousands
/// separators, and an inverse function name gets a dot after "arc".
pub open spec fn spec_cmu_separator(s: Seq<char>, is_function_name: bool) -> Seq<char> {
    if is_spaced_number(s) {
        spaces_to_dots(s)
    } else if is_block_number(s) {
        let r = digit_run(s, 0);
        group_digits(s.subrange(0, r), 0) + s.subrange(r, s.len() as int)
    } else if s.len() > 3 && s[0] == 'a' && s[1] == 'r' && s[2] == 'c' && is_function_name {
        seq!['a', 'r', 'c', '.'] + s.subrange(3, s.len() as int)
    } else {
        s
    }
}

fn digit_run_at(v: &Vec<char>, i: usize) -> (r: usize)
    requires
        i <= v@.len(),
    ensures
        r as int == digit_run(v@, i as int),
        i + r <= v@.len(),
{
    let mut j = i;
    while j < v.len() && '0' <= v[j] && v[j] <= '9'
        invariant
            i <= j <= v@.len(),
            digit_run(v@, i as int) == (j - i) + digit_run(v@, j as int),
        decreases v@.len() - j,
    {
        j = j + 1;
    }
    j - i
}

fn spaced_groups_at(v: &Vec<char>, i: usize) -> (r: bool)
    requires
        i <= v@.len(),
    ensures
        r == spaced_groups(v@, i as int),
{
    let n = v.len();
    let mut j = i;
    loop
        invariant
            i <= j <= n == v@.len(),
            spaced_groups(v@, i as int) == spaced_groups(v@, j as int),
        decreases n - j,
    {
        if j == n {
            return true;
        }
        if v[j] == ' ' {
            if n - j >= 4 && '0' <= v[j + 1] && v[j + 1] <= '9' && '0' <= v[j + 2] && v[j + 2]
                <= '9' && '0' <= v[j + 3] && v[j + 3] <= '9' {
                j = j + 4;
            } else {
                return false;
            }
        } else if v[j] == ',' {
            let d = digit_run_at(v, j + 1);
            return j + 1 + d == n;
        } else {
            return false;
        }
    }
}

/// Insert the CMU separators into a leaf token's text; the caller says
/// whether the token is a known function name.
pub fn cmu_number_separators(text: &str, is_function_name: bool) -> (r: String)
    ensures
        r@ == spec_cmu_separator(text@, is_function_name),
{
    let v = crate::strutil::to_chars(text);
    let n = v.len();
    let r0 = digit_run_at(&v, 0);
    let spaced = n > 0 && '0' <= v[0] && v[0] <= '9' && v[0] != '0' && 1 <= r0 && r0 <= 3
        && spaced_groups_at(&v, r0);
    if spaced {
        let mut out: Vec<char> = Vec::new();
        let mut k: usize = 0;
        while k < n
            invariant
                k <= n == v@.len(),
                out@.len() == k,
                forall|j: int|
                    0 <= j < k ==> out@[j] == (if v@[j] == ' ' {
                        '.'
                    } else {
                        v@[j]
                    }),
            decreases n - k,
        {
            if v[k] == ' ' {
                out.push('.');
            } else {
                out.push(v[k]);
            }
            k = k + 1;
        }
        proof {
            assert(out@ =~= spaces_to_dots(v@));
        }
        return crate::strutil::from_chars(&out);
    }
    let blocks = n > 0 && '0' <= v[0] && v[0] <= '9' && v[0] != '0' && r0 >= 4 && (r0 == n || (
    v[r0] == ',' && {
        let d = digit_run_at(&v, r0 + 1);
        r0 + 1 + d == n
    }));
    if blocks {
        let mut out: Vec<char> = Vec::new();
        let mut k: usize = 0;
        while k < r0
            invariant
                k <= r0 <= n == v@.len(),
                group_digits(v@.subrange(0, r0 as int), 0) == out@ + group_digits(
                    v@.subrange(0, r0 as int),
                    k as int,
                ),
            decreases r0 - k,
        {
            if k > 0 && (r0 - k) % 3 == 0 {
                out.push('.');
            }
            out.push(v[k]);
            k = k + 1;
            proof {
                assert(v@.subrange(0, r0 as int)[k - 1] == v@[k - 1]);
                assert(group_digits(v@.subrange(0, r0 as int), 0) =~= out@ + group_digits(
                    v@.subrange(0, r0 as int),
                    k as int,
                ));
            }
        }
        crate::strutil::push_range(&mut out, &v, r0, n);
        proof {
            assert(out@ =~= spec_cmu_separator(text@, is_function_name));
        }
        return crate::strutil::from_chars(&out);
    }
    if n > 3 && v[0] == 'a' && v[1] == 'r' && v[2] == 'c' && is_function_name {
        let mut out: Vec<char> = Vec::new();
        out.push('a');
        out.push('r');
        out.push('c');
        out.push('.');
        crate::strutil::push_range(&mut out, &v, 3, n);
        proof {
            assert(out@ =~= spec_cmu_separator(text@, is_function_name));
        }
        return crate::strutil::from_chars(&out);
    }
    crate::strutil::from_chars(&v)
}

/// The text with dots and commas exchanged.
pub open spec fn swap_dot_comma(s: Seq<char>) -> Seq<char> {
    Seq::new(
        s.len(),
        |k: int|
            if s[k] == '.' {
                ','
            } else if s[k] == ',' {
                '.'
            } else {
                s[k]
            },
    )
}

/// Every dot replaced by a comma.
pub open spec fn dots_to_commas(s: Seq<char>) -> Seq<char> {
    Seq::new(
        s.len(),
        |k: int|
            if s[k] == '.' {
                ','
            } else {
                s[k]
            },
    )
}

/// Every comma replaced by a dot.
pub open spec fn commas_to_dots(s: Seq<char>) -> Seq<char> {
    Seq::new(
        s.len(),
        |k: int|
            if s[k] == ',' {
                '.'
            } else {
                s[k]
            },
    )
}

/// Vietnamese number style: an English-style number has its dots and
/// commas exchanged so that the comma is the decimal separator.  A
/// comma before a dot means English grouping; a lone dot is a decimal
/// point unless it starts the text, follows a leading zero, or is not
/// followed by exactly three digits; repeated commas are separators.
pub open spec fn spec_vietnam_number(s: Seq<char>) -> Seq<char> {
    let dot = crate::ueb::first_char_from(s, 0, '.');
    let comma = crate::ueb::first_char_from(s, 0, ',');
    if dot < s.len() && comma < s.len() {
        if comma < dot {
            swap_dot_comma(s)
        } else {
            s
        }
    } else if dot < s.len() {
        if dot == 0 || (dot == 1 && s[0] == '0') || (crate::ueb::first_char_from(s, dot + 1, '.')
            == s.len() && s.len() - (dot + 1) != 3) {
            dots_to_commas(s)
        } else {
            s
        }
    } else if comma < s.len() {
        if crate::ueb::first_char_from(s, comma + 1, ',') < s.len() {
            commas_to_dots(s)
        } else {
            s
        }
    } else {
        s
    }
}

fn first_char_at(v: &Vec<char>, from: usize, c: char) -> (r: usize)
    requires
        from <= v@.len(),
    ensures
        r as int == crate::ueb::first_char_from(v@, from as int, c),
        from <= r <= v@.len(),
        r < v@.len() ==> v@[r as int] == c,
{
    let mut j = from;
    while j < v.len() && v[j] != c
        invariant
            from <= j <= v@.len(),
            crate::ueb::first_char_from(v@, from as int, c) == crate::ueb::first_char_from(
                v@,
                j as int,
                c,
            ),
        decreases v@.len() - j,
    {
        j = j + 1;
    }
    j
}

/// Adjust an English-style number for Vietnamese braille.
pub fn vietnam_number_style(text: &str) -> (r: String)
    ensures
        r@ == spec_vietnam_number(text@),
{
    let v = crate::strutil::to_chars(text);
    let n = v.len();
    let dot = first_char_at(&v, 0, '.');
    let comma = first_char_at(&v, 0, ',');
    let mode: u8 = if dot < n && comma < n {
        if comma < dot {
            1
        } else {
            0
        }
    } else if dot < n {
        let second = first_char_at(&v, dot + 1, '.');
        if dot == 0 || (dot == 1 && v[0] == '0') || (second == n && n - (dot + 1) != 3) {
            2
        } else {
            0
        }
    } else if comma < n {
        if first_char_at(&v, comma + 1, ',') < n {
            3
        } else {
            0
        }
    } else {
        0
    };
    let mut out: Vec<char> = Vec::new();
    let mut k: usize = 0;
    while k < n
        invariant
            k <= n == v@.len(),
            out@.len() == k,
            forall|j: int|
                0 <= j < k ==> out@[j] == (if mode == 1 {
                    swap_dot_comma(v@)[j]
                } else if mode == 2 {
                    dots_to_commas(v@)[j]
                } else if mode == 3 {
                    commas_to_dots(v@)[j]
                } else {
                    v@[j]
                }),
        decreases n - k,
    {
        let c = v[k];
        if mode == 1 {
            if c == '.' {
                out.push(',');
            } else if c == ',' {
                out.push('.');
            } else {
                out.push(c);
            }
        } else if mode == 2 {
            if c == '.' {
                out.push(',');
            } else {
                out.push(c);
            }
        } else if mode == 3 {
            if c == ',' {
                out.push('.');
            } else {
                out.push(c);
            }
        } else {
            out.push(c);
        }
        k = k + 1;
    }
    proof {
        if mode == 1 {
            assert(out@ =~= swap_dot_comma(v@));
        } else if mode == 2 {
            assert(out@ =~= dots_to_commas(v@));
        } else if mode == 3 {
            assert(out@ =~= commas_to_dots(v@));
        } else {
            assert(out@ =~= v@);
        }
    }
    crate::strutil::from_chars(&out)
}

/// An upper-case ASCII letter lowered; other characters unchanged.
pub open spec fn lower_ascii(c: char) -> char {
    if 'A' <= c && c <= 'Z' {
        ((c as u32) + 32) as char
    } else {
        c
    }
}

fn lower_ascii_char(c: char) -> (r: char)
    ensures
        r == lower_ascii(c),
{
    if c == 'A' {
        'a'
    } else if c == 'B' {
        'b'
    } else if c == 'C' {
        'c'
    } else if c == 'D' {
        'd'
    } else if c == 'E' {
        'e'
    } else if c == 'F' {
        'f'
    } else if c == 'G' {
        'g'
    } else if c == 'H' {
        'h'
    } else if c == 'I' {
        'i'
    } else if c == 'J' {
        'j'
    } else if c == 'K' {
        'k'
    } else if c == 'L' {
        'l'
    } else if c == 'M' {
        'm'
    } else if c == 'N' {
        'n'
    } else if c == 'O' {
        'o'
    } else if c == 'P' {
        'p'
    } else if c == 'Q' {
        'q'
    } else if c == 'R' {
        'r'
    } else if c == 'S' {
        's'
    } else if c == 'T' {
        't'
    } else if c == 'U' {
        'u'
    } else if c == 'V' {
        'v'
    } else if c == 'W' {
        'w'
    } else if c == 'X' {
        'x'
    } else if c == 'Y' {
        'y'
    } else if c == 'Z' {
        'z'
    } else {
        c
    }
}

/// A Roman-numeral token keeps its first character's case; the rest is
/// lowered so that no capital indicators are produced.
pub open spec fn spec_lower_roman(s: Seq<char>) -> Seq<char> {
    Seq::new(
        s.len(),
        |k: int|
            if k == 0 {
                s[k]
            } else {
                lower_ascii(s[k])
            },
    )
}

pub fn lower_roman_numeral(text: &str) -> (r: String)
    ensures
        r@ == spec_lower_roman(text@),
{
    let v = crate::strutil::to_chars(text);
    let n = v.len();
    let mut out: Vec<char> = Vec::new();
    let mut k: usize = 0;
    while k < n
        invariant
            k <= n == v@.len(),
            out@.len() == k,
            forall|j: int| 0 <= j < k ==> out@[j] == spec_lower_roman(v@)[j],
        decreases n - k,
    {
        if k == 0 {
            out.push(v[0]);
        } else {
            out.push(lower_ascii_char(v[k]));
        }
        k = k + 1;
    }
    proof {
        assert(out@ =~= spec_lower_roman(v@));
    }
    crate::strutil::from_chars(&out)
}

/// The characters of `s` from `start` (inclusive) to `end` (exclusive),
/// counted in characters, clamped to the text.
pub fn substring_chars(s: &str, start: usize, end: usize) -> (r: String)
    requires
        start <= end,
    ensures
        r@ == s@.subrange(
            if start as int <= s@.len() {
                start as int
            } else {
                s@.len() as int
            },
            if end as int <= s@.len() {
                end as int
            } else {
                s@.len() as int
            },
        ),
{
    let v = crate::strutil::to_chars(s);
    let n = v.len();
    let a = if start <= n {
        start
    } else {
        n
    };
    let b = if end <= n {
        end
    } else {
        n
    };
    let mut out: Vec<char> = Vec::new();
    crate::strutil::push_range(&mut out, &v, a, b);
    proof {
        assert(out@ =~= s@.subrange(
            if start as int <= s@.len() {
                start as int
            } else {
                s@.len() as int
            },
            if end as int <= s@.len() {
                end as int
            } else {
                s@.len() as int
            },
        ));
    }
    crate::strutil::from_chars(&out)
}

} // verus!