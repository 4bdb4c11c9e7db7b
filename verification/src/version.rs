//! Version extraction: applying an explicit capture pattern to process
//! output, the ordered fallback cascade of generic version patterns, and
//! the plain-text parsers used by the update checker.

use crate::text::{chars_of, starts_with_seq, string_of};
use vstd::prelude::*;

verus! {

/// The first capture group of the first match of `pattern` in `text`,
/// when `pattern` is a valid regular expression with a capture group and
/// it matches; the result depends on the two strings alone.
pub uninterp spec fn capture_of(pattern: Seq<char>, text: Seq<char>) -> Option<Seq<char>>;

/// Relies on `regex::Regex::new` and `regex::Regex::captures`: compiling
/// a pattern and taking the first capture group of its first match is a
/// function of the pattern and the haystack alone.
#[verifier::external_body]
fn regex_capture_first(pattern: &str, text: &str) -> (r: Option<String>)
    ensures
        (match r {
            Some(s) => capture_of(pattern@, text@) == Some(s@),
            None => capture_of(pattern@, text@) is None,
        }),
{
    regex::Regex::new(pattern)
        .ok()
        .and_then(|re| re.captures(text))
        .and_then(|c| c.get(1))
        .map(|m| m.as_str().to_string())
}

/// Apply an explicit pattern to process output: the first capture group
/// of the first match, if the pattern compiles and matches.
pub fn extract_with_pattern(text: &str, pattern: &str) -> (r: Option<String>)
    ensures
        (match r {
            Some(s) => capture_of(pattern@, text@) == Some(s@),
            None => capture_of(pattern@, text@) is None,
        }),
{
    regex_capture_first(pattern, text)
}

/// The fallback extraction result: the patterns of the cascade tried in
/// priority order, returning the first capture.
pub open spec fn spec_extract_version(text: Seq<char>) -> Option<Seq<char>> {
    if capture_of(r"(\d+\.\d+\.\d+(?:-[a-zA-Z0-9.-]+)?)"@, text) is Some {
        capture_of(r"(\d+\.\d+\.\d+(?:-[a-zA-Z0-9.-]+)?)"@, text)
    } else if capture_of(r"[Vv]ersion:?\s*v?(\d+\.\d+\.\d+[^\s]*)"@, text) is Some {
        capture_of(r"[Vv]ersion:?\s*v?(\d+\.\d+\.\d+[^\s]*)"@, text)
    } else if capture_of(r"[Cc]lient [Vv]ersion:?\s*v?(\d+\.\d+\.\d+[^\s]*)"@, text) is Some {
        capture_of(r"[Cc]lient [Vv]ersion:?\s*v?(\d+\.\d+\.\d+[^\s]*)"@, text)
    } else {
        None
    }
}

/// Recover a version from arbitrary process output with no explicit
/// pattern: a cascade of generic patterns tried in a fixed priority
/// order — plain `MAJOR.MINOR.PATCH` with an optional pre-release
/// suffix, then a labeled `Version:` form, then the `Client Version:`
/// form — returning the first capture.
pub fn extract_version(output: &str) -> (r: Option<String>)
    ensures
        (match r {
            Some(s) => spec_extract_version(output@) == Some(s@),
            None => spec_extract_version(output@) is None,
        }),
{
    let first = regex_capture_first(r"(\d+\.\d+\.\d+(?:-[a-zA-Z0-9.-]+)?)", output);
    if let Some(v) = first {
        return Some(v);
    }
    let second = regex_capture_first(r"[Vv]ersion:?\s*v?(\d+\.\d+\.\d+[^\s]*)", output);
    if let Some(v) = second {
        return Some(v);
    }
    let third = regex_capture_first(r"[Cc]lient [Vv]ersion:?\s*v?(\d+\.\d+\.\d+[^\s]*)", output);
    if let Some(v) = third {
        return Some(v);
    }
    None
}

/// ASCII whitespace, as the text parsers here understand it.
pub open spec fn is_space(c: char) -> bool {
    c == ' ' || c == '\t' || c == '\n' || c == '\r'
}

/// `s` without leading whitespace.
pub open spec fn spec_trim_start(s: Seq<char>) -> Seq<char>
    decreases s.len(),
{
    if s.len() > 0 && is_space(s[0]) {
        spec_trim_start(s.skip(1))
    } else {
        s
    }
}

/// `s` without trailing whitespace.
pub open spec fn spec_trim_end(s: Seq<char>) -> Seq<char>
    decreases s.len(),
{
    if s.len() > 0 && is_space(s[s.len() - 1]) {
        spec_trim_end(s.take(s.len() - 1))
    } else {
        s
    }
}

/// `s` without leading or trailing whitespace.
pub open spec fn spec_trim(s: Seq<char>) -> Seq<char> {
    spec_trim_end(spec_trim_start(s))
}

/// `s` without its leading run of the character `c`.
pub open spec fn spec_strip_leading(s: Seq<char>, c: char) -> Seq<char>
    decreases s.len(),
{
    if s.len() > 0 && s[0] == c {
        spec_strip_leading(s.skip(1), c)
    } else {
        s
    }
}

/// Whether `c` counts as whitespace here.
fn is_space_char(c: char) -> (r: bool)
    ensures
        r == is_space(c),
{
    c == ' ' || c == '\t' || c == '\n' || c == '\r'
}

/// The characters of `v` without leading or trailing whitespace.
pub fn trim_chars(v: &Vec<char>) -> (r: Vec<char>)
    ensures
        r@ == spec_trim(v@),
{
    let mut start: usize = 0;
    proof {
        assert(v@.skip(0) =~= v@);
    }
    while start < v.len() && is_space_char(v[start])
        invariant
            start <= v@.len(),
            spec_trim_start(v@) == spec_trim_start(v@.skip(start as int)),
            forall|j: int| 0 <= j < start ==> is_space(v@[j]),
        decreases v@.len() - start,
    {
        proof {
            assert(v@.skip(start as int)[0] == v@[start as int]);
            assert(v@.skip(start as int).skip(1) =~= v@.skip(start + 1));
        }
        start = start + 1;
    }
    proof {
        if start < v@.len() {
            assert(v@.skip(start as int)[0] == v@[start as int]);
            assert(spec_trim_start(v@.skip(start as int)) == v@.skip(start as int));
        } else {
            assert(v@.skip(start as int) =~= Seq::<char>::empty());
            assert(spec_trim_start(v@) =~= v@.skip(start as int));
        }
    }
    let mut end: usize = v.len();
    let ghost trimmed_start = v@.skip(start as int);
    proof {
        assert(trimmed_start.take(end - start as int) =~= trimmed_start);
    }
    while end > start && is_space_char(v[end - 1])
        invariant
            start <= end <= v@.len(),
            trimmed_start == v@.skip(start as int),
            spec_trim_start(v@) == trimmed_start,
            spec_trim_end(trimmed_start) == spec_trim_end(
                trimmed_start.take(end - start as int),
            ),
        decreases end,
    {
        proof {
            let cur = trimmed_start.take(end - start as int);
            assert(cur[cur.len() - 1] == v@[end - 1]);
            assert(cur.take(cur.len() - 1) =~= trimmed_start.take(end - 1 - start as int));
        }
        end = end - 1;
    }
    proof {
        let cur = trimmed_start.take(end - start as int);
        if end > start {
            assert(cur[cur.len() - 1] == v@[end - 1]);
            assert(!is_space(cur[cur.len() - 1]));
            assert(spec_trim_end(cur) == cur);
        } else {
            assert(cur =~= Seq::<char>::empty());
            assert(spec_trim_end(cur) == cur);
        }
    }
    let mut out: Vec<char> = Vec::new();
    let mut i: usize = start;
    while i < end
        invariant
            start <= i <= end <= v@.len(),
            out@ == v@.subrange(start as int, i as int),
        decreases end - i,
    {
        out.push(v[i]);
        i = i + 1;
        proof {
            assert(out@ =~= v@.subrange(start as int, i as int));
        }
    }
    proof {
        assert(out@ =~= trimmed_start.take(end - start as int));
    }
    out
}

/// Normalize a reported version: trim whitespace, then strip any leading
/// `v` markers.
pub fn normalize_version(version: &str) -> (r: String)
    ensures
        r@ == spec_strip_leading(spec_trim(version@), 'v'),
{
    let v = chars_of(version);
    let t = trim_chars(&v);
    let mut start: usize = 0;
    proof {
        assert(t@.skip(0) =~= t@);
    }
    while start < t.len() && t[start] == 'v'
        invariant
            start <= t@.len(),
            spec_strip_leading(t@, 'v') == spec_strip_leading(t@.skip(start as int), 'v'),
        decreases t@.len() - start,
    {
        proof {
            assert(t@.skip(start as int)[0] == t@[start as int]);
            assert(t@.skip(start as int).skip(1) =~= t@.skip(start + 1));
        }
        start = start + 1;
    }
    proof {
        if start < t@.len() {
            assert(t@.skip(start as int)[0] == t@[start as int]);
        } else {
            assert(t@.skip(start as int) =~= Seq::<char>::empty());
        }
        assert(spec_strip_leading(t@.skip(start as int), 'v') == t@.skip(start as int));
    }
    let mut out: Vec<char> = Vec::new();
    let mut i: usize = start;
    while i < t.len()
        invariant
            start <= i <= t@.len(),
            out@ == t@.subrange(start as int, i as int),
        decreases t@.len() - i,
    {
        out.push(t[i]);
        i = i + 1;
        proof {
            assert(out@ =~= t@.subrange(start as int, i as int));
        }
    }
    proof {
        assert(out@ =~= t@.skip(start as int));
    }
    string_of(&out)
}

/// Strip every successive occurrence of the prefix `p` from the front of
/// `s`.
pub open spec fn spec_strip_prefix_runs(s: Seq<char>, p: Seq<char>) -> Seq<char>
    decreases s.len(),
{
    if p.len() > 0 && starts_with_seq(s, p) {
        spec_strip_prefix_runs(s.skip(p.len() as int), p)
    } else {
        s
    }
}

/// The version one line of `apt-cache policy` output names: the value of
/// a trimmed `Installed:` line, unless it is `(none)` or empty.
pub open spec fn spec_apt_line_version(line: Seq<char>) -> Option<Seq<char>> {
    let t = spec_trim(line);
    if starts_with_seq(t, "Installed:"@) {
        let v = spec_trim(spec_strip_prefix_runs(t, "Installed:"@));
        if v != "(none)"@ && v.len() > 0 {
            Some(v)
        } else {
            None
        }
    } else {
        None
    }
}

/// The installed version the whole output names: the first line that
/// yields one.
pub open spec fn spec_apt_version(lines: Seq<Seq<char>>) -> Option<Seq<char>>
    decreases lines.len(),
{
    if lines.len() == 0 {
        None
    } else if spec_apt_line_version(lines[0]) is Some {
        spec_apt_line_version(lines[0])
    } else {
        spec_apt_version(lines.skip(1))
    }
}

/// Strip repeated `Installed:` prefixes from the front of a line.
fn strip_installed_prefix(t: &Vec<char>) -> (r: Vec<char>)
    ensures
        r@ == spec_strip_prefix_runs(t@, "Installed:"@),
{
    proof {
        reveal_strlit("Installed:");
    }
    let p = chars_of("Installed:");
    let mut cur: Vec<char> = Vec::new();
    let mut i: usize = 0;
    while i < t.len()
        invariant
            i <= t@.len(),
            cur@ == t@.subrange(0, i as int),
        decreases t@.len() - i,
    {
        cur.push(t[i]);
        i = i + 1;
        proof {
            assert(cur@ =~= t@.subrange(0, i as int));
        }
    }
    proof {
        assert(cur@ =~= t@);
    }
    while crate::text::starts_with_chars(&cur, &p)
        invariant
            p@ == "Installed:"@,
            p@.len() == 10,
            spec_strip_prefix_runs(t@, "Installed:"@) == spec_strip_prefix_runs(
                cur@,
                "Installed:"@,
            ),
        decreases cur@.len(),
    {
        let mut next: Vec<char> = Vec::new();
        let mut k: usize = 10;
        proof {
            assert(next@ =~= cur@.subrange(10, 10));
        }
        while k < cur.len()
            invariant
                cur@.len() >= 10,
                10 <= k,
                k <= cur@.len() || k == 10,
                next@ == cur@.subrange(10, (if k <= cur@.len() {
                    k as int
                } else {
                    10int
                })),
            decreases cur@.len() - k,
        {
            next.push(cur[k]);
            k = k + 1;
            proof {
                assert(next@ =~= cur@.subrange(10, k as int));
            }
        }
        proof {
            assert(next@ =~= cur@.skip(10));
            assert(spec_strip_prefix_runs(cur@, "Installed:"@) == spec_strip_prefix_runs(
                cur@.skip(10),
                "Installed:"@,
            ));
        }
        cur = next;
    }
    proof {
        assert(spec_strip_prefix_runs(cur@, "Installed:"@) == cur@);
    }
    cur
}

/// Recover the installed version from `apt-cache policy` output: the
/// value of the first `Installed:` line that names a real version.
pub fn extract_apt_installed_version(output: &str) -> (r: Option<String>)
    ensures
        (match r {
            Some(v) => spec_apt_version(crate::text::spec_listing_lines(output@)) == Some(v@),
            None => spec_apt_version(crate::text::spec_listing_lines(output@)) is None,
        }),
{
    let chars = chars_of(output);
    let lines = crate::text::split_on(&chars, '\n');
    let ghost lineviews = crate::text::spec_listing_lines(output@);
    proof {
        assert(lineviews =~= crate::text::spec_split(output@, '\n').map_values(
            |l: Seq<char>| crate::text::spec_clean_line(l),
        ));
        assert(lineviews.skip(0) =~= lineviews);
    }
    let mut i: usize = 0;
    while i < lines.len()
        invariant
            lines@.map_values(|l: Vec<char>| l@) == crate::text::spec_split(output@, '\n'),
            lineviews == crate::text::spec_listing_lines(output@),
            lines@.len() == lineviews.len(),
            i <= lines@.len(),
            spec_apt_version(lineviews) == spec_apt_version(lineviews.skip(i as int)),
        decreases lines@.len() - i,
    {
        proof {
            assert(lineviews.skip(i as int)[0] == lineviews[i as int]);
            assert(lineviews.skip(i as int).skip(1) =~= lineviews.skip(i + 1));
            assert(lines@.map_values(|l: Vec<char>| l@)[i as int] == lines@[i as int]@);
            assert(lineviews[i as int] == crate::text::spec_clean_line(lines@[i as int]@));
        }
        let raw = &lines[i];
        let mut clean: Vec<char> = Vec::new();
        let keep: usize = if raw.len() > 0 && raw[raw.len() - 1] == '\r' {
            raw.len() - 1
        } else {
            raw.len()
        };
        let mut k: usize = 0;
        while k < keep
            invariant
                keep <= raw@.len(),
                k <= keep,
                clean@ == raw@.subrange(0, k as int),
            decreases keep - k,
        {
            clean.push(raw[k]);
            k = k + 1;
            proof {
                assert(clean@ =~= raw@.subrange(0, k as int));
            }
        }
        proof {
            assert(clean@ =~= crate::text::spec_clean_line(raw@));
        }
        let t = trim_chars(&clean);
        proof {
            reveal_strlit("Installed:");
        }
        if crate::text::starts_with_chars(&t, &chars_of("Installed:")) {
            let stripped = strip_installed_prefix(&t);
            let v = trim_chars(&stripped);
            let is_none_marker = crate::text::chars_eq(&v, &chars_of("(none)"));
            if !is_none_marker && v.len() > 0 {
                proof {
                    assert(spec_apt_line_version(lineviews[i as int]) == Some(v@));
                }
                return Some(string_of(&v));
            }
        }
        i = i + 1;
    }
    proof {
        assert(lineviews.skip(lineviews.len() as int) =~= Seq::<Seq<char>>::empty());
    }
    None
}

/// One part of a version-check template with `{package}` and `{repo}`
/// both replaced by the package name.
pub open spec fn spec_check_part(part: Seq<char>, package: Seq<char>) -> Seq<char> {
    crate::text::spec_replace(
        crate::text::spec_replace(part, "{package}"@, package),
        "{repo}"@,
        package,
    )
}

/// Expand a version-check command template for a package.
pub fn build_version_check_command(template: &Vec<String>, package: &str) -> (r: Vec<String>)
    ensures
        r@.len() == template@.len(),
        forall|j: int|
            0 <= j < r@.len() ==> (#[trigger] r@[j])@ == spec_check_part(
                template@[j]@,
                package@,
            ),
{
    let pkg = chars_of(package);
    let package_tok = chars_of("{package}");
    let repo_tok = chars_of("{repo}");
    let mut out: Vec<String> = Vec::new();
    let mut i: usize = 0;
    while i < template.len()
        invariant
            pkg@ == package@,
            package_tok@ == "{package}"@,
            repo_tok@ == "{repo}"@,
            i <= template@.len(),
            out@.len() == i,
            forall|j: int|
                0 <= j < i ==> (#[trigger] out@[j])@ == spec_check_part(
                    template@[j]@,
                    package@,
                ),
        decreases template@.len() - i,
    {
        let part = chars_of(template[i].as_str());
        let step1 = crate::text::replace_chars(&part, &package_tok, &pkg);
        let step2 = crate::text::replace_chars(&step1, &repo_tok, &pkg);
        out.push(string_of(&step2));
        i = i + 1;
    }
    out
}

/// Expand a version-check URL template for a package.
pub fn expand_check_url(url: &str, package: &str) -> (r: String)
    ensures
        r@ == spec_check_part(url@, package@),
{
    let u = chars_of(url);
    let pkg = chars_of(package);
    let step1 = crate::text::replace_chars(&u, &chars_of("{package}"), &pkg);
    let step2 = crate::text::replace_chars(&step1, &chars_of("{repo}"), &pkg);
    string_of(&step2)
}

} // verus!
