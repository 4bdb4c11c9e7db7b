//! Placeholder-token machinery behind the template expander: which strings
//! are placeholder tokens, what a well-formed template is, and the proof
//! that expanding a well-formed template leaves no token behind.

use crate::text::{contains_seq, lemma_replace_skip, occurs_at, spec_replace, starts_with_seq};
use vstd::prelude::*;

verus! {

/// `s` contains no opening brace.
pub open spec fn no_brace(s: Seq<char>) -> bool {
    forall|i: int| 0 <= i < s.len() ==> s[i] != '{'
}

/// The shape every placeholder token has: it opens with `{` and contains
/// no further `{`.
pub open spec fn good_tok(t: Seq<char>) -> bool {
    &&& t.len() > 0
    &&& t[0] == '{'
    &&& forall|q: int| 1 <= q < t.len() ==> t[q] != '{'
}

/// Every `{` in `s` begins an occurrence of one of the tokens
/// `toks[k..]`.
pub open spec fn wf_from(s: Seq<char>, toks: Seq<Seq<char>>, k: int) -> bool {
    forall|i: int|
        0 <= i < s.len() && s[i] == '{' ==> exists|j: int|
            k <= j < toks.len() && occurs_at(s, #[trigger] toks[j], i)
}

/// `s` with the tokens `toks[k..]` replaced in order by the values
/// `vals[k..]`.
pub open spec fn replace_seq(
    s: Seq<char>,
    toks: Seq<Seq<char>>,
    vals: Seq<Seq<char>>,
    k: int,
) -> Seq<char>
    decreases toks.len() - k,
{
    if k < 0 || k >= toks.len() {
        s
    } else {
        replace_seq(spec_replace(s, toks[k], vals[k]), toks, vals, k + 1)
    }
}

/// An occurrence within the suffix `s.skip(m)` is an occurrence within
/// `s`, shifted.
proof fn lemma_occurs_skip(s: Seq<char>, pat: Seq<char>, m: int, i: int)
    requires
        0 <= m <= s.len(),
        occurs_at(s, pat, m + i),
        0 <= i,
    ensures
        occurs_at(s.skip(m), pat, i),
{
    assert(s.skip(m).subrange(i, i + pat.len() as int) =~= s.subrange(
        m + i,
        m + i + pat.len() as int,
    ));
}

/// An occurrence within the second part of a concatenation is an
/// occurrence within the whole, shifted.
proof fn lemma_occurs_concat(a: Seq<char>, b: Seq<char>, pat: Seq<char>, i: int)
    requires
        occurs_at(b, pat, i),
    ensures
        occurs_at(a + b, pat, a.len() + i),
{
    assert((a + b).subrange(a.len() + i, a.len() + i + pat.len() as int) =~= b.subrange(
        i,
        i + pat.len() as int,
    ));
}

/// One replacement pass: replacing token `toks[k]` by a brace-free value
/// in a template whose braces all begin tokens `toks[k..]` yields a string
/// whose braces all begin tokens `toks[k + 1..]`.
proof fn lemma_pass(s: Seq<char>, toks: Seq<Seq<char>>, k: int, v: Seq<char>)
    requires
        0 <= k < toks.len(),
        forall|j: int| 0 <= j < toks.len() ==> good_tok(#[trigger] toks[j]),
        wf_from(s, toks, k),
        no_brace(v),
    ensures
        wf_from(spec_replace(s, toks[k], v), toks, k + 1),
    decreases s.len(),
{
    let t = toks[k];
    assert(good_tok(t));
    let r = spec_replace(s, t, v);
    if s.len() < t.len() {
        assert(r == s);
        assert forall|i: int| 0 <= i < r.len() && r[i] == '{' implies exists|j: int|
            k + 1 <= j < toks.len() && occurs_at(r, #[trigger] toks[j], i) by {
            let j = choose|j: int| k <= j < toks.len() && occurs_at(s, #[trigger] toks[j], i);
            assert(occurs_at(s, toks[j], i));
            assert(j != k) by {
                if j == k {
                    assert(i + t.len() <= s.len());
                }
            }
        }
    } else if s.subrange(0, t.len() as int) == t {
        let tail = s.skip(t.len() as int);
        assert(r == v + spec_replace(tail, t, v));
        assert forall|i: int| 0 <= i < tail.len() && tail[i] == '{' implies exists|j: int|
            k <= j < toks.len() && occurs_at(tail, #[trigger] toks[j], i) by {
            assert(tail[i] == s[t.len() + i]);
            let j = choose|j: int|
                k <= j < toks.len() && occurs_at(s, #[trigger] toks[j], t.len() + i);
            lemma_occurs_skip(s, toks[j], t.len() as int, i);
        }
        lemma_pass(tail, toks, k, v);
        let rt = spec_replace(tail, t, v);
        assert forall|i: int| 0 <= i < r.len() && r[i] == '{' implies exists|j: int|
            k + 1 <= j < toks.len() && occurs_at(r, #[trigger] toks[j], i) by {
            if i < v.len() {
                assert(r[i] == v[i]);
                assert(false);
            } else {
                assert(r[i] == rt[i - v.len()]);
                let j = choose|j: int|
                    k + 1 <= j < toks.len() && occurs_at(rt, #[trigger] toks[j], i - v.len());
                lemma_occurs_concat(v, rt, toks[j], i - v.len());
            }
        }
    } else {
        let tail = s.skip(1);
        assert(r == seq![s[0]] + spec_replace(tail, t, v));
        assert forall|i: int| 0 <= i < tail.len() && tail[i] == '{' implies exists|j: int|
            k <= j < toks.len() && occurs_at(tail, #[trigger] toks[j], i) by {
            assert(tail[i] == s[1 + i]);
            let j = choose|j: int| k <= j < toks.len() && occurs_at(s, #[trigger] toks[j], 1 + i);
            lemma_occurs_skip(s, toks[j], 1, i);
        }
        lemma_pass(tail, toks, k, v);
        let rt = spec_replace(tail, t, v);
        assert forall|i: int| 0 <= i < r.len() && r[i] == '{' implies exists|j: int|
            k + 1 <= j < toks.len() && occurs_at(r, #[trigger] toks[j], i) by {
            if i == 0 {
                assert(s[0] == '{');
                let j = choose|j: int| k <= j < toks.len() && occurs_at(s, #[trigger] toks[j], 0);
                assert(j != k) by {
                    if j == k {
                        assert(s.subrange(0, t.len() as int) == t);
                    }
                }
                let tj = toks[j];
                let ll = tj.len() as int;
                assert forall|q: int| 0 <= q < ll - 1 implies !occurs_at(tail, t, q) by {
                    if occurs_at(tail, t, q) {
                        assert(tail.subrange(q, q + t.len() as int)[0] == tail[q]);
                        assert(tail[q] == t[0]);
                        assert(tail[q] == s[q + 1]);
                        assert(s.subrange(0, ll)[q + 1] == s[q + 1]);
                        assert(tj[q + 1] != '{');
                    }
                }
                lemma_replace_skip(tail, t, v, ll - 1);
                assert(rt == tail.subrange(0, ll - 1) + spec_replace(tail.skip(ll - 1), t, v));
                assert(occurs_at(r, tj, 0)) by {
                    assert(ll <= r.len());
                    assert forall|q: int| 0 <= q < ll implies r.subrange(0, ll)[q] == tj[q] by {
                        assert(r.subrange(0, ll)[q] == r[q]);
                        if q == 0 {
                            assert(r[0] == s[0]);
                            assert(s.subrange(0, ll)[0] == s[0]);
                        } else {
                            assert(r[q] == rt[q - 1]);
                            assert(rt[q - 1] == tail.subrange(0, ll - 1)[q - 1]);
                            assert(tail[q - 1] == s[q]);
                            assert(s.subrange(0, ll)[q] == s[q]);
                        }
                    }
                    assert(r.subrange(0, ll) =~= tj);
                }
            } else {
                assert(r[i] == rt[i - 1]);
                let j = choose|j: int|
                    k + 1 <= j < toks.len() && occurs_at(rt, #[trigger] toks[j], i - 1);
                lemma_occurs_concat(seq![s[0]], rt, toks[j], i - 1);
            }
        }
    }
}

/// Replacing every token of a well-formed template by brace-free values
/// leaves a string in which every brace would have to begin one of no
/// remaining tokens.
proof fn lemma_fold(s: Seq<char>, toks: Seq<Seq<char>>, vals: Seq<Seq<char>>, k: int)
    requires
        0 <= k <= toks.len(),
        vals.len() == toks.len(),
        forall|j: int| 0 <= j < toks.len() ==> good_tok(#[trigger] toks[j]),
        forall|j: int| 0 <= j < vals.len() ==> no_brace(#[trigger] vals[j]),
        wf_from(s, toks, k),
    ensures
        wf_from(replace_seq(s, toks, vals, k), toks, toks.len() as int),
    decreases toks.len() - k,
{
    if k == toks.len() {
    } else {
        lemma_pass(s, toks, k, vals[k]);
        lemma_fold(spec_replace(s, toks[k], vals[k]), toks, vals, k + 1);
    }
}

/// The full statement: expanding a well-formed template with brace-free
/// values yields a brace-free string, so no placeholder token remains.
pub proof fn lemma_replace_all_tokens(s: Seq<char>, toks: Seq<Seq<char>>, vals: Seq<Seq<char>>)
    requires
        vals.len() == toks.len(),
        forall|j: int| 0 <= j < toks.len() ==> good_tok(#[trigger] toks[j]),
        forall|j: int| 0 <= j < vals.len() ==> no_brace(#[trigger] vals[j]),
        wf_from(s, toks, 0),
    ensures
        no_brace(replace_seq(s, toks, vals, 0)),
        forall|j: int|
            0 <= j < toks.len() ==> !contains_seq(
                replace_seq(s, toks, vals, 0),
                #[trigger] toks[j],
            ),
{
    lemma_fold(s, toks, vals, 0);
    let r = replace_seq(s, toks, vals, 0);
    assert forall|i: int| 0 <= i < r.len() implies r[i] != '{' by {
        if r[i] == '{' {
            let j = choose|j: int|
                toks.len() <= j < toks.len() && occurs_at(r, #[trigger] toks[j], i);
            assert(false);
        }
    }
    assert forall|j: int| 0 <= j < toks.len() implies !contains_seq(r, #[trigger] toks[j]) by {
        if contains_seq(r, toks[j]) {
            let i = choose|i: int| occurs_at(r, toks[j], i);
            assert(r.subrange(i, i + toks[j].len() as int)[0] == r[i]);
            assert(r[i] == toks[j][0]);
        }
    }
}

/// No token of `toks` is a prefix of another (nor equal to it).
pub open spec fn prefix_free(toks: Seq<Seq<char>>) -> bool {
    forall|j: int, k: int|
        0 <= j < toks.len() && 0 <= k < toks.len() && j != k ==> !starts_with_seq(
            #[trigger] toks[k],
            #[trigger] toks[j],
        )
}

/// The index of the token occurring at the head of `s`, searching from
/// `k`, or `-1` when none does.
pub open spec fn token_index_at(s: Seq<char>, toks: Seq<Seq<char>>, k: int) -> int
    decreases toks.len() - k,
{
    if k < 0 || k >= toks.len() {
        -1
    } else if occurs_at(s, toks[k], 0) {
        k
    } else {
        token_index_at(s, toks, k + 1)
    }
}

/// Simultaneous substitution in a single left-to-right pass: at each
/// position, the token occurring there (if any) is replaced by its
/// value and skipped whole, so a substituted value is never rescanned
/// and no pass order exists to matter.
pub open spec fn subst_sim(s: Seq<char>, toks: Seq<Seq<char>>, vals: Seq<Seq<char>>) -> Seq<
    char,
>
    decreases s.len(),
{
    if s.len() == 0 {
        Seq::empty()
    } else {
        let j = token_index_at(s, toks, 0);
        if 0 <= j < toks.len() && 0 < toks[j].len() <= s.len() && j < vals.len() {
            vals[j] + subst_sim(s.skip(toks[j].len() as int), toks, vals)
        } else {
            seq![s[0]] + subst_sim(s.skip(1), toks, vals)
        }
    }
}

/// What `token_index_at` finds: a real head occurrence, the first one.
proof fn lemma_token_index_at(s: Seq<char>, toks: Seq<Seq<char>>, k: int)
    requires
        0 <= k <= toks.len(),
    ensures
        token_index_at(s, toks, k) == -1 ==> forall|j: int|
            k <= j < toks.len() ==> !occurs_at(s, #[trigger] toks[j], 0),
        token_index_at(s, toks, k) != -1 ==> k <= token_index_at(s, toks, k) < toks.len()
            && occurs_at(s, toks[token_index_at(s, toks, k)], 0),
    decreases toks.len() - k,
{
    if k == toks.len() {
    } else if occurs_at(s, toks[k], 0) {
    } else {
        lemma_token_index_at(s, toks, k + 1);
    }
}

/// Folding over an empty string leaves it empty.
proof fn lemma_fold_empty(toks: Seq<Seq<char>>, vals: Seq<Seq<char>>, k: int)
    requires
        forall|j: int| 0 <= j < toks.len() ==> good_tok(#[trigger] toks[j]),
    ensures
        replace_seq(Seq::empty(), toks, vals, k) == Seq::<char>::empty(),
    decreases toks.len() - k,
{
    if 0 <= k < toks.len() {
        assert(good_tok(toks[k]));
        assert(spec_replace(Seq::empty(), toks[k], vals[k]) == Seq::<char>::empty());
        lemma_fold_empty(toks, vals, k + 1);
    }
}

/// A head character that is no `{` passes through every pass untouched.
proof fn lemma_head_char(s: Seq<char>, toks: Seq<Seq<char>>, vals: Seq<Seq<char>>, k: int)
    requires
        0 <= k <= toks.len(),
        s.len() > 0,
        s[0] != '{',
        forall|j: int| 0 <= j < toks.len() ==> good_tok(#[trigger] toks[j]),
    ensures
        replace_seq(s, toks, vals, k) == seq![s[0]] + replace_seq(s.skip(1), toks, vals, k),
    decreases toks.len() - k,
{
    if k == toks.len() {
        assert(seq![s[0]] + s.skip(1) =~= s);
    } else {
        let t = toks[k];
        assert(good_tok(t));
        assert(!occurs_at(s, t, 0)) by {
            if occurs_at(s, t, 0) {
                assert(s.subrange(0, t.len() as int)[0] == s[0]);
            }
        }
        let s1 = spec_replace(s, t, vals[k]);
        if s.len() < t.len() {
            assert(s1 == s);
            assert(s.skip(1).len() < t.len());
            assert(spec_replace(s.skip(1), t, vals[k]) == s.skip(1));
        } else {
            assert(s.subrange(0, t.len() as int) != t) by {
                assert(s.subrange(0, t.len() as int)[0] == s[0]);
            }
            assert(s1 == seq![s[0]] + spec_replace(s.skip(1), t, vals[k]));
        }
        assert(s1 == seq![s[0]] + spec_replace(s.skip(1), t, vals[k]));
        assert(s1.len() > 0 && s1[0] == s[0]);
        lemma_head_char(s1, toks, vals, k + 1);
        assert(s1.skip(1) =~= spec_replace(s.skip(1), t, vals[k]));
    }
}

/// One pass distributes over a concatenation whose left part holds no
/// opening brace: no match can start there, so it is copied whole.
proof fn lemma_replace_concat_safe(a: Seq<char>, b: Seq<char>, t: Seq<char>, v: Seq<char>)
    requires
        good_tok(t),
        no_brace(a),
    ensures
        spec_replace(a + b, t, v) == a + spec_replace(b, t, v),
    decreases a.len(),
{
    if a.len() == 0 {
        assert(a + b =~= b);
        assert(a + spec_replace(b, t, v) =~= spec_replace(b, t, v));
    } else {
        let s = a + b;
        assert(s[0] == a[0]);
        assert(s[0] != '{');
        assert(!occurs_at(s, t, 0)) by {
            if occurs_at(s, t, 0) {
                assert(s.subrange(0, t.len() as int)[0] == s[0]);
            }
        }
        assert(s.skip(1) =~= a.skip(1) + b);
        if s.len() < t.len() {
            assert(spec_replace(s, t, v) == s);
            assert(b.len() < t.len());
            assert(spec_replace(b, t, v) == b);
        } else {
            assert(s.subrange(0, t.len() as int) != t) by {
                assert(s.subrange(0, t.len() as int)[0] == s[0]);
            }
            assert(spec_replace(s, t, v) == seq![s[0]] + spec_replace(a.skip(1) + b, t, v));
            lemma_replace_concat_safe(a.skip(1), b, t, v);
            assert(seq![s[0]] + (a.skip(1) + spec_replace(b, t, v)) =~= a + spec_replace(
                b,
                t,
                v,
            ));
        }
    }
}

/// The whole fold distributes over a concatenation whose left part is
/// brace-free.
proof fn lemma_fold_concat_safe(
    a: Seq<char>,
    b: Seq<char>,
    toks: Seq<Seq<char>>,
    vals: Seq<Seq<char>>,
    k: int,
)
    requires
        0 <= k <= toks.len(),
        forall|j: int| 0 <= j < toks.len() ==> good_tok(#[trigger] toks[j]),
        no_brace(a),
    ensures
        replace_seq(a + b, toks, vals, k) == a + replace_seq(b, toks, vals, k),
    decreases toks.len() - k,
{
    if k == toks.len() {
    } else {
        assert(good_tok(toks[k]));
        lemma_replace_concat_safe(a, b, toks[k], vals[k]);
        lemma_fold_concat_safe(a, spec_replace(b, toks[k], vals[k]), toks, vals, k + 1);
    }
}

/// Two tokens occurring at the same head position are the same token,
/// when no token is a prefix of another.
proof fn lemma_head_token_unique(s: Seq<char>, toks: Seq<Seq<char>>, j0: int, j1: int)
    requires
        prefix_free(toks),
        0 <= j0 < toks.len(),
        0 <= j1 < toks.len(),
        occurs_at(s, toks[j0], 0),
        occurs_at(s, toks[j1], 0),
    ensures
        j0 == j1,
{
    if j0 != j1 {
        if toks[j0].len() <= toks[j1].len() {
            assert(starts_with_seq(toks[j1], toks[j0])) by {
                assert forall|q: int|
                    0 <= q < toks[j0].len() implies toks[j1].subrange(
                    0,
                    toks[j0].len() as int,
                )[q] == toks[j0][q] by {
                    assert(s.subrange(0, toks[j0].len() as int)[q] == s[q]);
                    assert(s.subrange(0, toks[j1].len() as int)[q] == s[q]);
                }
                assert(toks[j1].subrange(0, toks[j0].len() as int) =~= toks[j0]);
            }
        } else {
            assert(starts_with_seq(toks[j0], toks[j1])) by {
                assert forall|q: int|
                    0 <= q < toks[j1].len() implies toks[j0].subrange(
                    0,
                    toks[j1].len() as int,
                )[q] == toks[j1][q] by {
                    assert(s.subrange(0, toks[j0].len() as int)[q] == s[q]);
                    assert(s.subrange(0, toks[j1].len() as int)[q] == s[q]);
                }
                assert(toks[j0].subrange(0, toks[j1].len() as int) =~= toks[j1]);
            }
        }
    }
}

/// A token occurring at the head of the string is replaced by its value
/// by the fold, and the remaining passes act on the tail alone.
proof fn lemma_fold_head_token(
    s: Seq<char>,
    toks: Seq<Seq<char>>,
    vals: Seq<Seq<char>>,
    k: int,
    j0: int,
)
    requires
        0 <= k <= j0 < toks.len(),
        vals.len() == toks.len(),
        forall|j: int| 0 <= j < toks.len() ==> good_tok(#[trigger] toks[j]),
        forall|j: int| 0 <= j < vals.len() ==> no_brace(#[trigger] vals[j]),
        prefix_free(toks),
        occurs_at(s, toks[j0], 0),
    ensures
        replace_seq(s, toks, vals, k) == vals[j0] + replace_seq(
            s.skip(toks[j0].len() as int),
            toks,
            vals,
            k,
        ),
    decreases j0 - k,
{
    let t0 = toks[j0];
    let ll = t0.len() as int;
    assert(good_tok(t0));
    let tail = s.skip(ll);
    if k == j0 {
        assert(s.subrange(0, ll) == t0);
        assert(spec_replace(s, t0, vals[j0]) == vals[j0] + spec_replace(tail, t0, vals[j0]));
        lemma_fold_concat_safe(
            vals[j0],
            spec_replace(tail, t0, vals[j0]),
            toks,
            vals,
            k + 1,
        );
        assert(replace_seq(tail, toks, vals, k) == replace_seq(
            spec_replace(tail, toks[k], vals[k]),
            toks,
            vals,
            k + 1,
        ));
    } else {
        let tk = toks[k];
        assert(good_tok(tk));
        assert(!occurs_at(s, tk, 0)) by {
            if occurs_at(s, tk, 0) {
                lemma_head_token_unique(s, toks, k, j0);
            }
        }
        assert forall|q: int| 0 <= q < ll implies !occurs_at(s, tk, q) by {
            if occurs_at(s, tk, q) && q > 0 {
                assert(s.subrange(q, q + tk.len() as int)[0] == s[q]);
                assert(s[q] == tk[0]);
                assert(s.subrange(0, ll)[q] == s[q]);
                assert(t0[q] != '{');
            }
        }
        lemma_replace_skip(s, tk, vals[k], ll);
        let s1 = spec_replace(s, tk, vals[k]);
        assert(s1 == s.subrange(0, ll) + spec_replace(tail, tk, vals[k]));
        assert(occurs_at(s1, t0, 0)) by {
            assert(s1.subrange(0, ll) =~= s.subrange(0, ll));
        }
        lemma_fold_head_token(s1, toks, vals, k + 1, j0);
        assert(s1.skip(ll) =~= spec_replace(tail, tk, vals[k]));
        assert(replace_seq(tail, toks, vals, k) == replace_seq(
            spec_replace(tail, tk, vals[k]),
            toks,
            vals,
            k + 1,
        ));
    }
}

/// The sequential pass-by-pass expansion equals one simultaneous
/// left-to-right substitution: over a well-formed template with
/// brace-free values, each token occurrence is replaced independently of
/// every other, no substituted value is rescanned, and hence the order
/// of the passes does not matter.
pub proof fn lemma_sequential_is_simultaneous(
    s: Seq<char>,
    toks: Seq<Seq<char>>,
    vals: Seq<Seq<char>>,
)
    requires
        wf_from(s, toks, 0),
        forall|j: int| 0 <= j < toks.len() ==> good_tok(#[trigger] toks[j]),
        forall|j: int| 0 <= j < vals.len() ==> no_brace(#[trigger] vals[j]),
        prefix_free(toks),
        vals.len() == toks.len(),
    ensures
        replace_seq(s, toks, vals, 0) == subst_sim(s, toks, vals),
    decreases s.len(),
{
    lemma_token_index_at(s, toks, 0);
    if s.len() == 0 {
        assert(s =~= Seq::<char>::empty());
        lemma_fold_empty(toks, vals, 0);
    } else if s[0] != '{' {
        assert(token_index_at(s, toks, 0) == -1) by {
            let ji = token_index_at(s, toks, 0);
            if ji != -1 {
                assert(occurs_at(s, toks[ji], 0));
                assert(s.subrange(0, toks[ji].len() as int)[0] == s[0]);
                assert(good_tok(toks[ji]));
            }
        }
        assert(subst_sim(s, toks, vals) == seq![s[0]] + subst_sim(s.skip(1), toks, vals));
        lemma_head_char(s, toks, vals, 0);
        assert forall|i: int|
            0 <= i < s.skip(1).len() && s.skip(1)[i] == '{' implies exists|j: int|
            0 <= j < toks.len() && occurs_at(s.skip(1), #[trigger] toks[j], i) by {
            assert(s.skip(1)[i] == s[1 + i]);
            let j = choose|j: int| 0 <= j < toks.len() && occurs_at(s, #[trigger] toks[j], 1 + i);
            lemma_occurs_skip(s, toks[j], 1, i);
        }
        lemma_sequential_is_simultaneous(s.skip(1), toks, vals);
    } else {
        assert(exists|j: int| 0 <= j < toks.len() && occurs_at(s, #[trigger] toks[j], 0));
        let jw = choose|j: int| 0 <= j < toks.len() && occurs_at(s, #[trigger] toks[j], 0);
        let ji = token_index_at(s, toks, 0);
        assert(ji != -1);
        lemma_head_token_unique(s, toks, ji, jw);
        let ll = toks[ji].len() as int;
        assert(0 < ll <= s.len());
        assert(subst_sim(s, toks, vals) == vals[ji] + subst_sim(s.skip(ll), toks, vals));
        lemma_fold_head_token(s, toks, vals, 0, ji);
        assert forall|i: int|
            0 <= i < s.skip(ll).len() && s.skip(ll)[i] == '{' implies exists|j: int|
            0 <= j < toks.len() && occurs_at(s.skip(ll), #[trigger] toks[j], i) by {
            assert(s.skip(ll)[i] == s[ll + i]);
            let j = choose|j: int| 0 <= j < toks.len() && occurs_at(s, #[trigger] toks[j], ll + i);
            lemma_occurs_skip(s, toks[j], ll, i);
        }
        lemma_sequential_is_simultaneous(s.skip(ll), toks, vals);
    }
}

} // verus!
