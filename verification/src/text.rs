//! Character-sequence utilities: substring search, token replacement and
//! case folding, with exact specifications over `Seq<char>`.

use vstd::prelude::*;

verus! {

/// The pattern `pat` occurs in `s` starting at position `i`.
pub open spec fn occurs_at(s: Seq<char>, pat: Seq<char>, i: int) -> bool {
    0 <= i && i + pat.len() <= s.len() && s.subrange(i, i + pat.len() as int) == pat
}

/// The pattern `pat` occurs somewhere in `s`.
pub open spec fn contains_seq(s: Seq<char>, pat: Seq<char>) -> bool {
    exists|i: int| occurs_at(s, pat, i)
}

/// `s` ends with `pat`.
pub open spec fn ends_with_seq(s: Seq<char>, pat: Seq<char>) -> bool {
    pat.len() <= s.len() && s.subrange(s.len() - pat.len(), s.len() as int) == pat
}

/// `s` starts with `pat`.
pub open spec fn starts_with_seq(s: Seq<char>, pat: Seq<char>) -> bool {
    pat.len() <= s.len() && s.subrange(0, pat.len() as int) == pat
}

/// Result of replacing every occurrence of `pat` in `s` by `val`, scanning
/// left to right over non-overlapping occurrences; `s` itself when `pat` is
/// empty.
pub open spec fn spec_replace(s: Seq<char>, pat: Seq<char>, val: Seq<char>) -> Seq<char>
    decreases s.len(),
{
    if pat.len() == 0 || s.len() < pat.len() {
        s
    } else if s.subrange(0, pat.len() as int) == pat {
        val + spec_replace(s.skip(pat.len() as int), pat, val)
    } else {
        seq![s[0]] + spec_replace(s.skip(1), pat, val)
    }
}

/// The characters of `s`, as a vector.
pub fn chars_of(s: &str) -> (v: Vec<char>)
    ensures
        v@ == s@,
{
    let n = s.unicode_len();
    let mut v: Vec<char> = Vec::new();
    let mut i: usize = 0;
    while i < n
        invariant
            n == s@.len(),
            i <= n,
            v@ == s@.subrange(0, i as int),
        decreases n - i,
    {
        v.push(s.get_char(i));
        i = i + 1;
        proof {
            assert(v@ =~= s@.subrange(0, i as int));
        }
    }
    proof {
        assert(v@ =~= s@);
    }
    v
}

/// Relies on `String::push`: appends the character to the end of the string.
#[verifier::external_body]
fn push_char(s: &mut String, c: char)
    ensures
        final(s)@ == old(s)@.push(c),
{
    s.push(c);
}

/// A `String` holding exactly the characters of `v`.
pub fn string_of(v: &Vec<char>) -> (s: String)
    ensures
        s@ == v@,
{
    let mut s = String::new();
    let mut i: usize = 0;
    while i < v.len()
        invariant
            i <= v@.len(),
            s@ == v@.subrange(0, i as int),
        decreases v@.len() - i,
    {
        push_char(&mut s, v[i]);
        i = i + 1;
        proof {
            assert(s@ =~= v@.subrange(0, i as int));
        }
    }
    proof {
        assert(s@ =~= v@);
    }
    s
}

/// The two vectors hold the same characters.
pub fn chars_eq(a: &Vec<char>, b: &Vec<char>) -> (r: bool)
    ensures
        r == (a@ == b@),
{
    if a.len() != b.len() {
        return false;
    }
    let mut i: usize = 0;
    while i < a.len()
        invariant
            a@.len() == b@.len(),
            i <= a@.len(),
            forall|j: int| 0 <= j < i ==> a@[j] == b@[j],
        decreases a@.len() - i,
    {
        if a[i] != b[i] {
            return false;
        }
        i = i + 1;
    }
    proof {
        assert(a@ =~= b@);
    }
    true
}

/// Whether `pat` occurs in `s` at position `i`.
pub fn match_at(s: &Vec<char>, pat: &Vec<char>, i: usize) -> (r: bool)
    requires
        i <= s@.len(),
    ensures
        r == occurs_at(s@, pat@, i as int),
{
    let n = s.len();
    let plen = pat.len();
    if n - i < plen {
        return false;
    }
    let mut k: usize = 0;
    while k < plen
        invariant
            n == s@.len(),
            plen == pat@.len(),
            i + plen <= n,
            k <= plen,
            forall|j: int| 0 <= j < k ==> s@[i + j] == pat@[j],
        decreases plen - k,
    {
        if s[i + k] != pat[k] {
            proof {
                assert(s@.subrange(i as int, i + pat@.len() as int)[k as int] == s@[i + k]);
            }
            return false;
        }
        k = k + 1;
    }
    proof {
        assert(s@.subrange(i as int, i + pat@.len() as int) =~= pat@);
    }
    true
}

/// The first position at which `pat` occurs in `s`, if any.
pub fn find_first(s: &Vec<char>, pat: &Vec<char>) -> (r: Option<usize>)
    ensures
        match r {
            Some(i) => occurs_at(s@, pat@, i as int) && forall|j: int|
                0 <= j < i ==> !occurs_at(s@, pat@, j),
            None => !contains_seq(s@, pat@),
        },
{
    if pat.len() == 0 {
        proof {
            assert(s@.subrange(0, 0) =~= pat@);
        }
        return Some(0);
    }
    if pat.len() > s.len() {
        return None;
    }
    let n = s.len();
    let last = n - pat.len();
    let mut i: usize = 0;
    while i <= last
        invariant
            n == s@.len(),
            1 <= pat@.len() <= s@.len(),
            last == s@.len() - pat@.len(),
            i <= last + 1,
            forall|j: int| 0 <= j < i ==> !occurs_at(s@, pat@, j),
        decreases last + 1 - i,
    {
        if match_at(s, pat, i) {
            return Some(i);
        }
        i = i + 1;
    }
    None
}

/// Whether `pat` occurs anywhere in `s`.
pub fn contains_chars(s: &Vec<char>, pat: &Vec<char>) -> (r: bool)
    ensures
        r == contains_seq(s@, pat@),
{
    match find_first(s, pat) {
        Some(_) => true,
        None => false,
    }
}

/// Whether `s` ends with `pat`.
pub fn ends_with_chars(s: &Vec<char>, pat: &Vec<char>) -> (r: bool)
    ensures
        r == ends_with_seq(s@, pat@),
{
    if pat.len() > s.len() {
        return false;
    }
    match_at(s, pat, s.len() - pat.len())
}

/// Whether `s` starts with `pat`.
pub fn starts_with_chars(s: &Vec<char>, pat: &Vec<char>) -> (r: bool)
    ensures
        r == starts_with_seq(s@, pat@),
{
    if pat.len() > s.len() {
        return false;
    }
    match_at(s, pat, 0)
}

/// Splitting `spec_replace` at a prefix free of matches: if no occurrence of
/// `pat` starts before position `m`, replacement copies the prefix verbatim.
pub proof fn lemma_replace_skip(s: Seq<char>, pat: Seq<char>, val: Seq<char>, m: int)
    requires
        pat.len() > 0,
        0 <= m <= s.len(),
        forall|j: int| 0 <= j < m ==> !occurs_at(s, pat, j),
    ensures
        spec_replace(s, pat, val) == s.subrange(0, m) + spec_replace(s.skip(m), pat, val),
    decreases m,
{
    if m == 0 {
        assert(s.skip(0) =~= s);
        assert(s.subrange(0, 0) + spec_replace(s, pat, val) =~= spec_replace(s, pat, val));
    } else {
        if s.len() < pat.len() {
            assert(s.skip(m) =~= s.subrange(m, s.len() as int));
            assert(spec_replace(s.skip(m), pat, val) == s.skip(m));
            assert(s.subrange(0, m) + s.skip(m) =~= s);
        } else {
            assert(!occurs_at(s, pat, 0));
            assert(s.subrange(0, pat.len() as int) != pat);
            assert(spec_replace(s, pat, val) == seq![s[0]] + spec_replace(s.skip(1), pat, val));
            assert forall|j: int| 0 <= j < m - 1 implies !occurs_at(s.skip(1), pat, j) by {
                if occurs_at(s.skip(1), pat, j) {
                    assert(s.skip(1).subrange(j, j + pat.len() as int) =~= s.subrange(
                        j + 1,
                        j + 1 + pat.len() as int,
                    ));
                    assert(occurs_at(s, pat, j + 1));
                }
            }
            lemma_replace_skip(s.skip(1), pat, val, m - 1);
            assert(s.skip(1).skip(m - 1) =~= s.skip(m));
            assert(s.skip(1).subrange(0, m - 1) =~= s.subrange(1, m));
            assert(seq![s[0]] + (s.subrange(1, m) + spec_replace(s.skip(m), pat, val)) =~= s
                .subrange(0, m) + spec_replace(s.skip(m), pat, val));
        }
    }
}

/// Every occurrence of `pat` in `s` replaced by `val`.
pub fn replace_chars(s: &Vec<char>, pat: &Vec<char>, val: &Vec<char>) -> (r: Vec<char>)
    ensures
        r@ == spec_replace(s@, pat@, val@),
{
    if pat.len() == 0 {
        let mut out: Vec<char> = Vec::new();
        let mut i: usize = 0;
        while i < s.len()
            invariant
                i <= s@.len(),
                out@ == s@.subrange(0, i as int),
            decreases s@.len() - i,
        {
            out.push(s[i]);
            i = i + 1;
            proof {
                assert(out@ =~= s@.subrange(0, i as int));
            }
        }
        proof {
            assert(out@ =~= s@);
        }
        return out;
    }
    let mut out: Vec<char> = Vec::new();
    let mut i: usize = 0;
    proof {
        assert(s@.skip(0) =~= s@);
        assert(out@ + spec_replace(s@, pat@, val@) =~= spec_replace(s@, pat@, val@));
    }
    while i < s.len()
        invariant
            pat@.len() > 0,
            i <= s@.len(),
            spec_replace(s@, pat@, val@) == out@ + spec_replace(s@.skip(i as int), pat@, val@),
        decreases s@.len() - i,
    {
        if match_at(s, pat, i) {
            proof {
                assert(s@.skip(i as int).subrange(0, pat@.len() as int) =~= s@.subrange(
                    i as int,
                    i + pat@.len() as int,
                ));
                assert(s@.skip(i as int).skip(pat@.len() as int) =~= s@.skip(
                    i + pat@.len() as int,
                ));
                assert(spec_replace(s@.skip(i as int), pat@, val@) == val@ + spec_replace(
                    s@.skip(i + pat@.len() as int),
                    pat@,
                    val@,
                ));
            }
            let ghost out0 = out@;
            let mut k: usize = 0;
            while k < val.len()
                invariant
                    k <= val@.len(),
                    out@ == out0 + val@.subrange(0, k as int),
                decreases val@.len() - k,
            {
                out.push(val[k]);
                k = k + 1;
                proof {
                    assert(out@ =~= out0 + val@.subrange(0, k as int));
                }
            }
            proof {
                assert(out@ =~= out0 + val@);
                assert(out0 + (val@ + spec_replace(s@.skip(i + pat@.len() as int), pat@, val@))
                    =~= out@ + spec_replace(s@.skip(i + pat@.len() as int), pat@, val@));
            }
            i = i + pat.len();
        } else {
            proof {
                let t = s@.skip(i as int);
                assert(t.skip(1) =~= s@.skip(i + 1));
                if t.len() >= pat@.len() {
                    assert(t.subrange(0, pat@.len() as int) =~= s@.subrange(
                        i as int,
                        i + pat@.len() as int,
                    ));
                    assert(t.subrange(0, pat@.len() as int) != pat@);
                    assert(spec_replace(t, pat@, val@) == seq![t[0]] + spec_replace(
                        t.skip(1),
                        pat@,
                        val@,
                    ));
                } else {
                    assert(spec_replace(t, pat@, val@) == t);
                    assert(t.skip(1).len() < pat@.len());
                    assert(spec_replace(t.skip(1), pat@, val@) == t.skip(1));
                    assert(seq![t[0]] + t.skip(1) =~= t);
                }
                assert(spec_replace(t, pat@, val@) == seq![t[0]] + spec_replace(
                    s@.skip(i + 1),
                    pat@,
                    val@,
                ));
                assert(out@ + (seq![t[0]] + spec_replace(s@.skip(i + 1), pat@, val@)) =~= out@.push(
                    s@[i as int],
                ) + spec_replace(s@.skip(i + 1), pat@, val@));
            }
            out.push(s[i]);
            i = i + 1;
        }
    }
    proof {
        assert(s@.skip(s@.len() as int) =~= Seq::<char>::empty());
        assert(spec_replace(Seq::<char>::empty(), pat@, val@) == Seq::<char>::empty());
        assert(out@ + Seq::<char>::empty() =~= out@);
    }
    out
}

/// ASCII case folding of one character: the letters `A` through `Z`
/// shifted to lower case, all else unchanged.
pub open spec fn lower_char(c: char) -> char {
    if 65 <= c as u32 && c as u32 <= 90 {
        (((c as u32 + 32) as u8) as char)
    } else {
        c
    }
}

/// ASCII case folding of a whole sequence.
pub open spec fn spec_lower(s: Seq<char>) -> Seq<char> {
    s.map_values(|c: char| lower_char(c))
}

/// The characters of `v`, ASCII-folded to lower case.
pub fn lower_chars(v: &Vec<char>) -> (r: Vec<char>)
    ensures
        r@ == spec_lower(v@),
{
    let mut out: Vec<char> = Vec::new();
    let mut i: usize = 0;
    while i < v.len()
        invariant
            i <= v@.len(),
            out@ == spec_lower(v@.subrange(0, i as int)),
        decreases v@.len() - i,
    {
        let c = v[i];
        let u = c as u32;
        if 65 <= u && u <= 90 {
            out.push(((u + 32) as u8) as char);
        } else {
            out.push(c);
        }
        i = i + 1;
        proof {
            assert(out@ =~= spec_lower(v@.subrange(0, i as int)));
        }
    }
    proof {
        assert(v@.subrange(0, v@.len() as int) =~= v@);
    }
    out
}

/// The position of the first occurrence of the character `c` in `s`, or
/// `-1` when `c` does not occur.
pub open spec fn first_index_of(s: Seq<char>, c: char) -> int
    decreases s.len(),
{
    if s.len() == 0 {
        -1
    } else if s[0] == c {
        0
    } else {
        let r = first_index_of(s.skip(1), c);
        if r < 0 {
            -1
        } else {
            r + 1
        }
    }
}

/// What `first_index_of` finds: the least position holding `c`, or `-1`
/// when no position does.
proof fn lemma_first_index_of(s: Seq<char>, c: char)
    ensures
        first_index_of(s, c) == -1 ==> forall|j: int| 0 <= j < s.len() ==> s[j] != c,
        first_index_of(s, c) != -1 ==> 0 <= first_index_of(s, c) < s.len() && s[first_index_of(
            s,
            c,
        )] == c && forall|j: int| 0 <= j < first_index_of(s, c) ==> s[j] != c,
    decreases s.len(),
{
    if s.len() == 0 {
    } else if s[0] == c {
    } else {
        lemma_first_index_of(s.skip(1), c);
        let r = first_index_of(s.skip(1), c);
        if r == -1 {
            assert forall|j: int| 0 <= j < s.len() implies s[j] != c by {
                if j > 0 {
                    assert(s.skip(1)[j - 1] == s[j]);
                }
            }
        } else {
            assert(s.skip(1)[r] == s[r + 1]);
            assert forall|j: int| 0 <= j < r + 1 implies s[j] != c by {
                if j > 0 {
                    assert(s.skip(1)[j - 1] == s[j]);
                }
            }
        }
    }
}

/// `s` divided at every occurrence of the separator `c`; the separators
/// themselves do not appear, and `n` separators yield `n + 1` parts.
pub open spec fn spec_split(s: Seq<char>, c: char) -> Seq<Seq<char>>
    decreases s.len(),
{
    let fi = first_index_of(s, c);
    if fi < 0 || fi >= s.len() {
        seq![s]
    } else {
        seq![s.take(fi)] + spec_split(s.skip(fi + 1), c)
    }
}

/// Splitting yields at least one part.
pub proof fn lemma_split_nonempty(s: Seq<char>, c: char)
    ensures
        spec_split(s, c).len() >= 1,
{
    let fi = first_index_of(s, c);
    if fi < 0 {
    } else {
    }
}

/// `v` divided at every occurrence of the separator `sep`.
pub fn split_on(v: &Vec<char>, sep: char) -> (r: Vec<Vec<char>>)
    ensures
        r@.map_values(|l: Vec<char>| l@) == spec_split(v@, sep),
{
    let mut out: Vec<Vec<char>> = Vec::new();
    let mut cur: Vec<char> = Vec::new();
    let ghost whole = v@;
    let mut i: usize = 0;
    proof {
        assert(v@.skip(0) =~= v@);
        assert(out@.map_values(|l: Vec<char>| l@) =~= Seq::<Seq<char>>::empty());
    }
    while i < v.len()
        invariant
            i <= v@.len(),
            cur@.len() <= i,
            cur@ == v@.subrange(i - cur@.len(), i as int),
            spec_split(v@, sep) == out@.map_values(|l: Vec<char>| l@) + spec_split(
                cur@ + v@.skip(i as int),
                sep,
            ),
            forall|j: int| 0 <= j < cur@.len() ==> cur@[j] != sep,
        decreases v@.len() - i,
    {
        let ch = v[i];
        if ch == sep {
            proof {
                let tail = cur@ + v@.skip(i as int);
                lemma_first_index_of(tail, sep);
                assert(tail[cur@.len() as int] == sep);
                assert(first_index_of(tail, sep) == cur@.len()) by {
                    let fi = first_index_of(tail, sep);
                    assert(fi != -1);
                    if fi < cur@.len() {
                        assert(tail[fi] == cur@[fi]);
                        assert(false);
                    }
                    if fi > cur@.len() {
                        assert(tail[cur@.len() as int] != sep);
                        assert(false);
                    }
                }
                assert(tail.take(cur@.len() as int) =~= cur@);
                assert(tail.skip(cur@.len() as int + 1) =~= v@.skip(i + 1));
                assert(spec_split(tail, sep) == seq![cur@] + spec_split(v@.skip(i + 1), sep));
                let m0 = out@.map_values(|l: Vec<char>| l@);
                assert(m0 + (seq![cur@] + spec_split(v@.skip(i + 1), sep)) =~= (m0.push(cur@))
                    + spec_split(v@.skip(i + 1), sep));
                assert(out@.push(cur).map_values(|l: Vec<char>| l@) =~= m0.push(cur@));
            }
            out.push(cur);
            cur = Vec::new();
            proof {
                assert(cur@ =~= v@.subrange(i + 1 - 0, i + 1));
            }
        } else {
            proof {
                let tail = cur@ + v@.skip(i as int);
                assert(tail[cur@.len() as int] == ch);
                assert((cur@.push(ch)) + v@.skip(i + 1) =~= tail);
                assert(cur@.push(ch) =~= v@.subrange(i + 1 - (cur@.len() + 1), i + 1));
            }
            cur.push(ch);
        }
        i = i + 1;
    }
    proof {
        let tail = cur@ + v@.skip(i as int);
        assert(v@.skip(i as int) =~= Seq::<char>::empty());
        assert(tail =~= cur@);
        lemma_first_index_of(cur@, sep);
        assert(first_index_of(cur@, sep) == -1) by {
            let fi = first_index_of(cur@, sep);
            if fi != -1 {
                assert(cur@[fi] == sep);
            }
        }
        assert(spec_split(cur@, sep) =~= seq![cur@]);
        let m0 = out@.map_values(|l: Vec<char>| l@);
        assert(m0 + seq![cur@] =~= m0.push(cur@));
        assert(out@.push(cur).map_values(|l: Vec<char>| l@) =~= m0.push(cur@));
    }
    out.push(cur);
    out
}

/// A text line with one trailing carriage return removed.
pub open spec fn spec_clean_line(l: Seq<char>) -> Seq<char> {
    if l.len() > 0 && l[l.len() - 1] == '\r' {
        l.take(l.len() - 1)
    } else {
        l
    }
}

/// The lines of a block of process output: split on newlines, each
/// without a trailing carriage return.
pub open spec fn spec_listing_lines(s: Seq<char>) -> Seq<Seq<char>> {
    spec_split(s, '\n').map_values(|l: Seq<char>| spec_clean_line(l))
}

} // verus!
