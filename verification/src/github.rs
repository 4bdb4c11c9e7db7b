//! The GitHub release path: scoring release assets against the platform to
//! pick a downloadable artifact, and finding the executables inside an
//! archive listing.

use crate::error::InstallError;
use crate::text::{
    chars_of, chars_eq, contains_chars, contains_seq, ends_with_chars, ends_with_seq,
    lower_chars, spec_clean_line, spec_listing_lines, spec_lower, spec_split, split_on,
    starts_with_chars, starts_with_seq, string_of,
};
use crate::version::{spec_strip_leading, spec_trim};
use vstd::prelude::*;

verus! {

/// One release asset, as the release metadata reports it: a file name and
/// where to download it.
pub struct Asset {
    pub name: String,
    pub download_url: String,
}

/// What asset discovery yields: where to download, the release version,
/// and the chosen asset's name.
pub struct DiscoveryResult {
    pub download_url: String,
    pub version: String,
    pub asset_name: String,
}

/// What the download-and-install step reports: the version (filled in by
/// the caller from discovery) and the executables installed.
pub struct InstallResult {
    pub version: String,
    pub executables: Vec<String>,
}

/// A candidate executable inside an archive: its file name and its path
/// within the archive.
pub struct ExecutableInfo {
    pub name: String,
    pub path: String,
}

/// Hard exclusion: signature and checksum files, native package formats,
/// and source archives never qualify, whatever else they score.
pub open spec fn spec_excluded(lname: Seq<char>) -> bool {
    ||| ends_with_seq(lname, ".sig"@)
    ||| ends_with_seq(lname, ".asc"@)
    ||| ends_with_seq(lname, ".sha256"@)
    ||| ends_with_seq(lname, ".sha512"@)
    ||| ends_with_seq(lname, ".md5"@)
    ||| contains_seq(lname, ".sha256sum"@)
    ||| ends_with_seq(lname, ".deb"@)
    ||| ends_with_seq(lname, ".rpm"@)
    ||| ends_with_seq(lname, ".dmg"@)
    ||| ends_with_seq(lname, ".msi"@)
    ||| contains_seq(lname, "source"@)
    ||| contains_seq(lname, "src"@)
}

/// Whether the lowercased asset name mentions the requested OS.
pub open spec fn spec_has_os_match(lname: Seq<char>, os: Seq<char>) -> bool {
    if os == "linux"@ {
        contains_seq(lname, "linux"@)
    } else if os == "macos"@ {
        contains_seq(lname, "darwin"@) || contains_seq(lname, "macos"@) || contains_seq(
            lname,
            "osx"@,
        )
    } else if os == "windows"@ {
        contains_seq(lname, "windows"@) || contains_seq(lname, "win"@)
    } else {
        contains_seq(lname, spec_lower(os))
    }
}

/// Whether the name mentions any OS at all; a name that mentions none may
/// be a universal binary.
pub open spec fn spec_mentions_any_os(lname: Seq<char>) -> bool {
    ||| contains_seq(lname, "linux"@)
    ||| contains_seq(lname, "darwin"@)
    ||| contains_seq(lname, "windows"@)
    ||| contains_seq(lname, "macos"@)
    ||| contains_seq(lname, "win"@)
}

/// The OS component of the score: a strong award for a match, a small
/// bonus for a possibly-universal name, and rejection for a name that
/// names some other OS.
pub open spec fn spec_os_score(lname: Seq<char>, os: Seq<char>) -> Option<int> {
    if spec_has_os_match(lname, os) {
        Some(10int)
    } else if !spec_mentions_any_os(lname) {
        Some(1int)
    } else {
        None
    }
}

/// Whether the lowercased name mentions the requested architecture, by
/// any of its common aliases.
pub open spec fn spec_has_arch_match(lname: Seq<char>, arch: Seq<char>) -> bool {
    if arch == "x86_64"@ {
        ||| contains_seq(lname, "x86_64"@)
        ||| contains_seq(lname, "x64"@)
        ||| contains_seq(lname, "amd64"@)
        ||| contains_seq(lname, "x86-64"@)
    } else if arch == "aarch64"@ {
        contains_seq(lname, "aarch64"@) || contains_seq(lname, "arm64"@)
    } else {
        contains_seq(lname, arch)
    }
}

/// The architecture component: a strong award for a match, a medium award
/// for a universal build, and no penalty when no architecture is named.
pub open spec fn spec_arch_bonus(lname: Seq<char>, arch: Seq<char>) -> int {
    if spec_has_arch_match(lname, arch) {
        10int
    } else if contains_seq(lname, "universal"@) || contains_seq(lname, "all"@) {
        5int
    } else {
        0int
    }
}

/// The format preference: archives beat raw binaries, graded by format.
pub open spec fn spec_format_bonus(lname: Seq<char>) -> int {
    if ends_with_seq(lname, ".tar.gz"@) || ends_with_seq(lname, ".tgz"@) {
        5int
    } else if ends_with_seq(lname, ".zip"@) {
        4int
    } else if ends_with_seq(lname, ".tar.xz"@) {
        3int
    } else if ends_with_seq(lname, ".tar.bz2"@) {
        2int
    } else {
        0int
    }
}

/// The penalty for debug-labeled builds.
pub open spec fn spec_debug_penalty(lname: Seq<char>) -> int {
    if contains_seq(lname, "debug"@) {
        -10int
    } else {
        0int
    }
}

/// The score of one asset name for a platform, or nothing when the asset
/// is hard-excluded or names a different OS: the OS component, the
/// architecture bonus, the format preference and the debug penalty,
/// minus a small length penalty that prefers concise names.
pub open spec fn spec_score_asset(name: Seq<char>, os: Seq<char>, arch: Seq<char>) -> Option<
    int,
> {
    let lname = spec_lower(name);
    if spec_excluded(lname) {
        None
    } else {
        match spec_os_score(lname, os) {
            None => None,
            Some(os_part) => Some(
                os_part + spec_arch_bonus(lname, arch) + spec_format_bonus(lname)
                    + spec_debug_penalty(lname) - lname.len() as int / 20,
            ),
        }
    }
}

/// Score one asset name against the requested OS and architecture.
pub fn score_asset(name: &String, os: &String, arch: &String) -> (r: Option<i64>)
    ensures
        (match r {
            Some(sc) => spec_score_asset(name@, os@, arch@) == Some(sc as int),
            None => spec_score_asset(name@, os@, arch@) is None,
        }),
{
    let raw = chars_of(name.as_str());
    let lname = lower_chars(&raw);
    proof {
        assert(lname@.len() == name@.len());
    }
    if contains_chars(&lname, &chars_of(".sha256sum")) || contains_chars(&lname, &chars_of(
        "source",
    )) || contains_chars(&lname, &chars_of("src")) {
        return None;
    }
    if ends_with_chars(&lname, &chars_of(".sig")) || ends_with_chars(&lname, &chars_of(".asc"))
        || ends_with_chars(&lname, &chars_of(".sha256")) || ends_with_chars(&lname, &chars_of(
        ".sha512",
    )) || ends_with_chars(&lname, &chars_of(".md5")) || ends_with_chars(&lname, &chars_of(".deb"))
        || ends_with_chars(&lname, &chars_of(".rpm")) || ends_with_chars(&lname, &chars_of(".dmg"))
        || ends_with_chars(&lname, &chars_of(".msi")) {
        return None;
    }
    let os_chars = chars_of(os.as_str());
    let has_os_match: bool = if chars_eq(&os_chars, &chars_of("linux")) {
        contains_chars(&lname, &chars_of("linux"))
    } else if chars_eq(&os_chars, &chars_of("macos")) {
        contains_chars(&lname, &chars_of("darwin")) || contains_chars(&lname, &chars_of("macos"))
            || contains_chars(&lname, &chars_of("osx"))
    } else if chars_eq(&os_chars, &chars_of("windows")) {
        contains_chars(&lname, &chars_of("windows")) || contains_chars(&lname, &chars_of("win"))
    } else {
        let os_lower = lower_chars(&os_chars);
        contains_chars(&lname, &os_lower)
    };
    let os_part: i64 = if has_os_match {
        10
    } else {
        let mentions = contains_chars(&lname, &chars_of("linux")) || contains_chars(
            &lname,
            &chars_of("darwin"),
        ) || contains_chars(&lname, &chars_of("windows")) || contains_chars(&lname, &chars_of(
            "macos",
        )) || contains_chars(&lname, &chars_of("win"));
        if mentions {
            return None;
        }
        1
    };
    let arch_chars = chars_of(arch.as_str());
    let has_arch_match: bool = if chars_eq(&arch_chars, &chars_of("x86_64")) {
        contains_chars(&lname, &chars_of("x86_64")) || contains_chars(&lname, &chars_of("x64"))
            || contains_chars(&lname, &chars_of("amd64")) || contains_chars(&lname, &chars_of(
            "x86-64",
        ))
    } else if chars_eq(&arch_chars, &chars_of("aarch64")) {
        contains_chars(&lname, &chars_of("aarch64")) || contains_chars(&lname, &chars_of("arm64"))
    } else {
        contains_chars(&lname, &arch_chars)
    };
    let arch_part: i64 = if has_arch_match {
        10
    } else if contains_chars(&lname, &chars_of("universal")) || contains_chars(&lname, &chars_of(
        "all",
    )) {
        5
    } else {
        0
    };
    let format_part: i64 = if ends_with_chars(&lname, &chars_of(".tar.gz")) || ends_with_chars(
        &lname,
        &chars_of(".tgz"),
    ) {
        5
    } else if ends_with_chars(&lname, &chars_of(".zip")) {
        4
    } else if ends_with_chars(&lname, &chars_of(".tar.xz")) {
        3
    } else if ends_with_chars(&lname, &chars_of(".tar.bz2")) {
        2
    } else {
        0
    };
    let debug_part: i64 = if contains_chars(&lname, &chars_of("debug")) {
        -10
    } else {
        0
    };
    let length_penalty: i64 = (lname.len() / 20) as i64;
    Some(os_part + arch_part + format_part + debug_part - length_penalty)
}

/// The score of the asset at position `j`.
pub open spec fn spec_asset_score_at(
    assets: Seq<Asset>,
    j: int,
    os: Seq<char>,
    arch: Seq<char>,
) -> Option<int> {
    spec_score_asset(assets[j].name@, os, arch)
}

/// The asset at `j` scores no higher than `bound` (an unscored asset
/// trivially so).
pub open spec fn spec_score_at_most(
    assets: Seq<Asset>,
    j: int,
    os: Seq<char>,
    arch: Seq<char>,
    bound: int,
) -> bool {
    match spec_asset_score_at(assets, j, os, arch) {
        Some(s) => s <= bound,
        None => true,
    }
}

/// `entry` names a real asset together with that asset's score.
pub open spec fn spec_listed_candidate(
    assets: Seq<Asset>,
    os: Seq<char>,
    arch: Seq<char>,
    entry: (String, i64),
) -> bool {
    exists|j: int|
        #![auto]
        0 <= j < assets.len() && assets[j].name@ == entry.0@ && spec_asset_score_at(
            assets,
            j,
            os,
            arch,
        ) == Some(entry.1 as int)
}

/// The asset at `j` scores strictly below `bound` (an unscored asset
/// trivially so).
pub open spec fn spec_score_below(
    assets: Seq<Asset>,
    j: int,
    os: Seq<char>,
    arch: Seq<char>,
    bound: int,
) -> bool {
    match spec_asset_score_at(assets, j, os, arch) {
        Some(s) => s < bound,
        None => true,
    }
}

/// Pick the asset the discovery selects: the earliest asset achieving the
/// highest score, provided that score is positive. Hard-excluded assets
/// have no score and are never selected. The error value carries the
/// scored candidates for diagnosis: at most ten, highest first.
pub fn select_best_asset(assets: &Vec<Asset>, os: &String, arch: &String) -> (r: Result<
    usize,
    Vec<(String, i64)>,
>)
    ensures
        (match r {
            Ok(i) => i < assets@.len() && (match spec_asset_score_at(assets@, i as int, os@, arch@) {
                Some(sc) => sc > 0 && (forall|j: int|
                    0 <= j < assets@.len() ==> spec_score_at_most(assets@, j, os@, arch@, sc))
                    && (forall|j: int| 0 <= j < i ==> spec_score_below(assets@, j, os@, arch@, sc)),
                None => false,
            }),
            Err(cands) => (forall|j: int|
                0 <= j < assets@.len() ==> spec_score_at_most(assets@, j, os@, arch@, 0))
                && cands@.len() <= 10 && ((exists|j: int|
                0 <= j < assets@.len() && spec_asset_score_at(assets@, j, os@, arch@) is Some)
                ==> cands@.len() > 0) && (forall|k: int|
                #![trigger cands@[k]]
                0 <= k < cands@.len() ==> spec_listed_candidate(assets@, os@, arch@, cands@[k]))
                && (forall|k: int|
                0 <= k < cands@.len() - 1 ==> #[trigger] cands@[k].1 >= cands@[k + 1].1),
        }),
{
    let mut best: Option<(usize, i64)> = None;
    let mut j: usize = 0;
    while j < assets.len()
        invariant
            j <= assets@.len(),
            (match best {
                Some((bi, bs)) => bi < j && spec_asset_score_at(assets@, bi as int, os@, arch@)
                    == Some(bs as int) && (forall|k: int|
                    0 <= k < j ==> spec_score_at_most(assets@, k, os@, arch@, bs as int)) && (
                forall|k: int| 0 <= k < bi ==> spec_score_below(assets@, k, os@, arch@, bs as int)),
                None => forall|k: int|
                    0 <= k < j ==> spec_asset_score_at(assets@, k, os@, arch@) is None,
            }),
        decreases assets@.len() - j,
    {
        let sc = score_asset(&assets[j].name, os, arch);
        match sc {
            Some(s) => {
                match best {
                    Some((_, bs)) => {
                        if s > bs {
                            proof {
                                assert forall|k: int| 0 <= k < j implies spec_score_at_most(
                                    assets@,
                                    k,
                                    os@,
                                    arch@,
                                    s as int,
                                ) by {
                                    assert(spec_score_at_most(assets@, k, os@, arch@, bs as int));
                                }
                                assert forall|k: int| 0 <= k < j implies spec_score_below(
                                    assets@,
                                    k,
                                    os@,
                                    arch@,
                                    s as int,
                                ) by {
                                    assert(spec_score_at_most(assets@, k, os@, arch@, bs as int));
                                }
                            }
                            best = Some((j, s));
                        }
                    },
                    None => {
                        proof {
                            assert forall|k: int| 0 <= k < j implies spec_score_at_most(
                                assets@,
                                k,
                                os@,
                                arch@,
                                s as int,
                            ) && spec_score_below(assets@, k, os@, arch@, s as int) by {
                                assert(spec_asset_score_at(assets@, k, os@, arch@) is None);
                            }
                        }
                        best = Some((j, s));
                    },
                }
            },
            None => {},
        }
        j = j + 1;
    }
    match best {
        Some((bi, bs)) => {
            if bs > 0 {
                return Ok(bi);
            }
            proof {
                assert forall|j2: int| 0 <= j2 < assets@.len() implies spec_score_at_most(
                    assets@,
                    j2,
                    os@,
                    arch@,
                    0,
                ) by {
                    assert(spec_score_at_most(assets@, j2, os@, arch@, bs as int));
                }
            }
            Err(top_candidates(assets, os, arch))
        },
        None => Err(top_candidates(assets, os, arch)),
    }
}

/// The scored candidates for the diagnostic listing: at most ten, each a
/// real asset's name with its score, ordered highest first.
fn top_candidates(assets: &Vec<Asset>, os: &String, arch: &String) -> (r: Vec<(String, i64)>)
    ensures
        r@.len() <= 10,
        forall|k: int|
            #![trigger r@[k]]
            0 <= k < r@.len() ==> spec_listed_candidate(assets@, os@, arch@, r@[k]),
        forall|k: int| 0 <= k < r@.len() - 1 ==> #[trigger] r@[k].1 >= r@[k + 1].1,
        (exists|j: int|
            0 <= j < assets@.len() && spec_asset_score_at(assets@, j, os@, arch@) is Some) ==> (
        r@.len() > 0 && (forall|j: int|
            0 <= j < assets@.len() ==> spec_score_at_most(assets@, j, os@, arch@, r@[0].1 as int))),
{
    let mut used: Vec<bool> = Vec::new();
    let mut i: usize = 0;
    while i < assets.len()
        invariant
            i <= assets@.len(),
            used@.len() == i,
            forall|k: int| 0 <= k < i ==> used@[k] == false,
        decreases assets@.len() - i,
    {
        used.push(false);
        i = i + 1;
    }
    let mut out: Vec<(String, i64)> = Vec::new();
    let mut round: usize = 0;
    while round < 10
        invariant
            used@.len() == assets@.len(),
            out@.len() == round && round <= 10,
            forall|k: int|
                #![trigger out@[k]]
                0 <= k < out@.len() ==> spec_listed_candidate(assets@, os@, arch@, out@[k]),
            forall|k: int| 0 <= k < out@.len() - 1 ==> #[trigger] out@[k].1 >= out@[k + 1].1,
            forall|j: int|
                0 <= j < assets@.len() && !used@[j] && out@.len() > 0 ==> spec_score_at_most(
                    assets@,
                    j,
                    os@,
                    arch@,
                    out@[out@.len() - 1].1 as int,
                ),
            out@.len() == 0 ==> forall|k: int| 0 <= k < used@.len() ==> used@[k] == false,
            out@.len() > 0 ==> forall|j: int|
                0 <= j < assets@.len() ==> spec_score_at_most(
                    assets@,
                    j,
                    os@,
                    arch@,
                    out@[0].1 as int,
                ),
        decreases 10 - round,
    {
        let mut pick: Option<(usize, i64)> = None;
        let mut j: usize = 0;
        while j < assets.len()
            invariant
                used@.len() == assets@.len(),
                j <= assets@.len(),
                (match pick {
                    Some((pi, ps)) => pi < j && used@[pi as int] == false
                        && spec_asset_score_at(assets@, pi as int, os@, arch@) == Some(ps as int)
                        && (forall|k: int|
                        0 <= k < j && !used@[k] ==> spec_score_at_most(
                            assets@,
                            k,
                            os@,
                            arch@,
                            ps as int,
                        )),
                    None => forall|k: int|
                        0 <= k < j && !used@[k] ==> spec_asset_score_at(assets@, k, os@, arch@)
                            is None,
                }),
            decreases assets@.len() - j,
        {
            if !used[j] {
                let sc = score_asset(&assets[j].name, os, arch);
                match sc {
                    Some(s) => {
                        match pick {
                            Some((_, ps)) => {
                                if s > ps {
                                    proof {
                                        assert forall|k: int|
                                            0 <= k < j && !used@[k] implies spec_score_at_most(
                                            assets@,
                                            k,
                                            os@,
                                            arch@,
                                            s as int,
                                        ) by {
                                            assert(spec_score_at_most(
                                                assets@,
                                                k,
                                                os@,
                                                arch@,
                                                ps as int,
                                            ));
                                        }
                                    }
                                    pick = Some((j, s));
                                }
                            },
                            None => {
                                proof {
                                    assert forall|k: int|
                                        0 <= k < j && !used@[k] implies spec_score_at_most(
                                        assets@,
                                        k,
                                        os@,
                                        arch@,
                                        s as int,
                                    ) by {
                                        assert(spec_asset_score_at(assets@, k, os@, arch@)
                                            is None);
                                    }
                                }
                                pick = Some((j, s));
                            },
                        }
                    },
                    None => {},
                }
            }
            j = j + 1;
        }
        match pick {
            Some((pi, ps)) => {
                let entry = (assets[pi].name.clone(), ps);
                proof {
                    assert(spec_asset_score_at(assets@, pi as int, os@, arch@) == Some(
                        ps as int,
                    ));
                    assert(spec_listed_candidate(assets@, os@, arch@, entry));
                    if out@.len() > 0 {
                        assert(spec_score_at_most(
                            assets@,
                            pi as int,
                            os@,
                            arch@,
                            out@[out@.len() - 1].1 as int,
                        ));
                    } else {
                        assert forall|j: int| 0 <= j < assets@.len() implies spec_score_at_most(
                            assets@,
                            j,
                            os@,
                            arch@,
                            ps as int,
                        ) by {
                            assert(!used@[j]);
                        }
                    }
                }
                out.push(entry);
                used.set(pi, true);
            },
            None => {
                proof {
                    if out@.len() == 0 {
                        assert forall|j: int|
                            0 <= j < assets@.len() implies spec_asset_score_at(
                            assets@,
                            j,
                            os@,
                            arch@,
                        ) is None by {
                            assert(!used@[j]);
                        }
                    }
                }
                return out;
            },
        }
        round = round + 1;
    }
    out
}

/// Discovery over a fetched release: pick the best-scoring asset, derive
/// the version from the release tag with its leading `v` markers
/// stripped, and report what to download. An empty asset list and a
/// release with no qualifying asset are the two failures.
pub fn discover_from_release(
    repo: &str,
    tag_name: &str,
    assets: &Vec<Asset>,
    os: &String,
    arch: &String,
) -> (r: Result<DiscoveryResult, InstallError>)
    ensures
        assets@.len() == 0 ==> (r matches Err(InstallError::NoAssetsFound(m)) && m@ == repo@),
        assets@.len() > 0 ==> (match r {
            Ok(d) => exists|i: int|
                #![auto]
                0 <= i < assets@.len() && d.asset_name@ == assets@[i].name@ && d.download_url@
                    == assets@[i].download_url@ && (match spec_asset_score_at(
                    assets@,
                    i,
                    os@,
                    arch@,
                ) {
                    Some(sc) => sc > 0 && (forall|j: int|
                        0 <= j < assets@.len() ==> spec_score_at_most(assets@, j, os@, arch@, sc))
                        && (forall|j: int|
                        0 <= j < i ==> spec_score_below(assets@, j, os@, arch@, sc)),
                    None => false,
                }) && d.version@ == spec_strip_leading(tag_name@, 'v'),
            Err(e) => e matches InstallError::NoMatchingAsset(o, a, cands) && o@ == os@ && a@
                == arch@ && (forall|j: int|
                0 <= j < assets@.len() ==> spec_score_at_most(assets@, j, os@, arch@, 0))
                && cands@.len() <= 10 && ((exists|j: int|
                0 <= j < assets@.len() && spec_asset_score_at(assets@, j, os@, arch@) is Some)
                ==> cands@.len() > 0) && (forall|k: int|
                #![trigger cands@[k]]
                0 <= k < cands@.len() ==> spec_listed_candidate(assets@, os@, arch@, cands@[k]))
                && (forall|k: int|
                0 <= k < cands@.len() - 1 ==> #[trigger] cands@[k].1 >= cands@[k + 1].1),
        }),
{
    if assets.len() == 0 {
        return Err(InstallError::NoAssetsFound(repo.to_owned()));
    }
    match select_best_asset(assets, os, arch) {
        Ok(i) => {
            let tag = chars_of(tag_name);
            let mut start: usize = 0;
            proof {
                assert(tag@.skip(0) =~= tag@);
            }
            while start < tag.len() && tag[start] == 'v'
                invariant
                    start <= tag@.len(),
                    tag@ == tag_name@,
                    spec_strip_leading(tag@, 'v') == spec_strip_leading(
                        tag@.skip(start as int),
                        'v',
                    ),
                decreases tag@.len() - start,
            {
                proof {
                    assert(tag@.skip(start as int)[0] == tag@[start as int]);
                    assert(tag@.skip(start as int).skip(1) =~= tag@.skip(start + 1));
                }
                start = start + 1;
            }
            proof {
                if start < tag@.len() {
                    assert(tag@.skip(start as int)[0] == tag@[start as int]);
                } else {
                    assert(tag@.skip(start as int) =~= Seq::<char>::empty());
                }
                assert(spec_strip_leading(tag@.skip(start as int), 'v') == tag@.skip(
                    start as int,
                ));
            }
            let mut version_chars: Vec<char> = Vec::new();
            let mut k: usize = start;
            while k < tag.len()
                invariant
                    start <= k <= tag@.len(),
                    version_chars@ == tag@.subrange(start as int, k as int),
                decreases tag@.len() - k,
            {
                version_chars.push(tag[k]);
                k = k + 1;
                proof {
                    assert(version_chars@ =~= tag@.subrange(start as int, k as int));
                }
            }
            proof {
                assert(version_chars@ =~= tag@.skip(start as int));
            }
            Ok(
                DiscoveryResult {
                    download_url: assets[i].download_url.clone(),
                    version: string_of(&version_chars),
                    asset_name: assets[i].name.clone(),
                },
            )
        },
        Err(cands) => Err(
            InstallError::NoMatchingAsset(os.clone(), arch.clone(), cands),
        ),
    }
}

/// How many of the `/`-separated segments are nonempty: the path's depth.
pub open spec fn spec_count_nonempty(segs: Seq<Seq<char>>) -> int
    decreases segs.len(),
{
    if segs.len() == 0 {
        0
    } else {
        (if segs[0].len() > 0 {
            1int
        } else {
            0int
        }) + spec_count_nonempty(segs.skip(1))
    }
}

/// The depth of a path: its number of nonempty `/`-separated segments.
pub open spec fn spec_depth(path: Seq<char>) -> int {
    spec_count_nonempty(spec_split(path, '/'))
}

/// The file name of a path: its last `/`-separated segment.
pub open spec fn spec_file_name(path: Seq<char>) -> Seq<char> {
    spec_split(path, '/').last()
}

/// Whether a file name is rejected as clearly non-executable: dotfiles,
/// documentation and completion extensions, and the common license,
/// readme, changelog and authors files.
pub open spec fn spec_name_rejected(name: Seq<char>) -> bool {
    let lname = spec_lower(name);
    ||| (name.len() > 0 && name[0] == '.')
    ||| ends_with_seq(name, ".md"@)
    ||| ends_with_seq(name, ".txt"@)
    ||| ends_with_seq(name, ".1"@)
    ||| ends_with_seq(name, ".fish"@)
    ||| ends_with_seq(name, ".bash"@)
    ||| ends_with_seq(name, ".zsh"@)
    ||| ends_with_seq(name, ".ps1"@)
    ||| lname == "license"@
    ||| lname == "copying"@
    ||| lname == "unlicense"@
    ||| lname == "readme"@
    ||| starts_with_seq(lname, "license"@)
    ||| starts_with_seq(lname, "changelog"@)
    ||| starts_with_seq(lname, "authors"@)
}

/// Whether a path lies under a documentation or completion directory.
pub open spec fn spec_path_rejected(path: Seq<char>) -> bool {
    ||| contains_seq(path, "/doc/"@)
    ||| contains_seq(path, "/docs/"@)
    ||| contains_seq(path, "/complete/"@)
    ||| contains_seq(path, "/completion"@)
}

/// The candidate an archive listing line yields, if any: directory
/// entries, blank lines, rejected names and paths, names with an
/// extension other than `.exe`, deep paths and test directories all
/// yield none; everything else yields its file name and path.
pub open spec fn spec_line_candidate(l: Seq<char>) -> Option<(Seq<char>, Seq<char>)> {
    if spec_trim(l).len() == 0 || (l.len() > 0 && l[l.len() - 1] == '/') {
        None
    } else {
        let path = spec_trim(l);
        let name = spec_file_name(path);
        if spec_name_rejected(name) || spec_path_rejected(path) {
            None
        } else if contains_seq(name, "."@) && !ends_with_seq(name, ".exe"@) {
            None
        } else if spec_depth(path) > 3 || contains_seq(path, "/test"@) {
            None
        } else {
            Some((name, path))
        }
    }
}

/// The candidates of a sequence of listing lines, in listing order.
pub open spec fn spec_candidates_from(lines: Seq<Seq<char>>) -> Seq<(Seq<char>, Seq<char>)>
    decreases lines.len(),
{
    if lines.len() == 0 {
        Seq::empty()
    } else {
        (match spec_line_candidate(lines[0]) {
            Some(p) => seq![p],
            None => Seq::empty(),
        }) + spec_candidates_from(lines.skip(1))
    }
}

/// Candidate collection distributes over appending one line.
proof fn lemma_candidates_snoc(lines: Seq<Seq<char>>, l: Seq<char>)
    ensures
        spec_candidates_from(lines.push(l)) == (match spec_line_candidate(l) {
            Some(p) => spec_candidates_from(lines).push(p),
            None => spec_candidates_from(lines),
        }),
    decreases lines.len(),
{
    let s = lines.push(l);
    if lines.len() == 0 {
        assert(s[0] == l);
        assert(s.skip(1) =~= Seq::<Seq<char>>::empty());
        assert(spec_candidates_from(Seq::<Seq<char>>::empty()) =~= Seq::<
            (Seq<char>, Seq<char>),
        >::empty());
        assert(spec_candidates_from(s.skip(1)) =~= Seq::<(Seq<char>, Seq<char>)>::empty());
        match spec_line_candidate(l) {
            Some(p) => {
                assert(spec_candidates_from(s) == seq![p] + spec_candidates_from(s.skip(1)));
                assert(seq![p] + spec_candidates_from(s.skip(1)) =~= spec_candidates_from(
                    lines,
                ).push(p));
            },
            None => {
                assert(spec_candidates_from(s) == Seq::<(Seq<char>, Seq<char>)>::empty()
                    + spec_candidates_from(s.skip(1)));
                assert(Seq::<(Seq<char>, Seq<char>)>::empty() + spec_candidates_from(s.skip(1))
                    =~= spec_candidates_from(lines));
            },
        }
    } else {
        assert(s[0] == lines[0]);
        assert(s.skip(1) =~= lines.skip(1).push(l));
        lemma_candidates_snoc(lines.skip(1), l);
        let head = (match spec_line_candidate(lines[0]) {
            Some(q) => seq![q],
            None => Seq::<(Seq<char>, Seq<char>)>::empty(),
        });
        assert(spec_candidates_from(s) == head + spec_candidates_from(lines.skip(1).push(l)));
        assert(spec_candidates_from(lines) == head + spec_candidates_from(lines.skip(1)));
        match spec_line_candidate(l) {
            Some(p) => {
                assert(spec_candidates_from(lines.skip(1).push(l)) == spec_candidates_from(
                    lines.skip(1),
                ).push(p));
                assert(head + spec_candidates_from(lines.skip(1)).push(p) =~= (head
                    + spec_candidates_from(lines.skip(1))).push(p));
                assert(spec_candidates_from(s) == spec_candidates_from(lines).push(p));
            },
            None => {
                assert(spec_candidates_from(lines.skip(1).push(l)) == spec_candidates_from(
                    lines.skip(1),
                ));
                assert(spec_candidates_from(s) == spec_candidates_from(lines));
            },
        }
    }
}

/// The candidates of a whole listing.
pub open spec fn spec_candidates(listing: Seq<char>) -> Seq<(Seq<char>, Seq<char>)> {
    spec_candidates_from(spec_listing_lines(listing))
}

/// Decide one cleaned listing line.
fn line_candidate(clean: &Vec<char>) -> (r: Option<ExecutableInfo>)
    ensures
        (match r {
            Some(e) => spec_line_candidate(clean@) == Some((e.name@, e.path@)),
            None => spec_line_candidate(clean@) is None,
        }),
{
    let trimmed = crate::version::trim_chars(clean);
    if trimmed.len() == 0 {
        return None;
    }
    if clean.len() > 0 && clean[clean.len() - 1] == '/' {
        return None;
    }
    let path = trimmed;
    let segs = split_on(&path, '/');
    proof {
        crate::text::lemma_split_nonempty(path@, '/');
        assert(segs@.map_values(|l: Vec<char>| l@).len() >= 1);
    }
    let name = &segs[segs.len() - 1];
    proof {
        assert(segs@.map_values(|l: Vec<char>| l@)[segs@.len() - 1] == name@);
        assert(spec_file_name(path@) == name@);
    }
    let lname = lower_chars(name);
    if name.len() > 0 && name[0] == '.' {
        return None;
    }
    if ends_with_chars(name, &chars_of(".md")) || ends_with_chars(name, &chars_of(".txt"))
        || ends_with_chars(name, &chars_of(".1")) || ends_with_chars(name, &chars_of(".fish"))
        || ends_with_chars(name, &chars_of(".bash")) || ends_with_chars(name, &chars_of(".zsh"))
        || ends_with_chars(name, &chars_of(".ps1")) {
        return None;
    }
    if chars_eq(&lname, &chars_of("license")) || chars_eq(&lname, &chars_of("copying"))
        || chars_eq(&lname, &chars_of("unlicense")) || chars_eq(&lname, &chars_of("readme"))
        || starts_with_chars(&lname, &chars_of("license")) || starts_with_chars(
        &lname,
        &chars_of("changelog"),
    ) || starts_with_chars(&lname, &chars_of("authors")) {
        return None;
    }
    if contains_chars(&path, &chars_of("/doc/")) || contains_chars(&path, &chars_of("/docs/"))
        || contains_chars(&path, &chars_of("/complete/")) || contains_chars(
        &path,
        &chars_of("/completion"),
    ) {
        return None;
    }
    if contains_chars(name, &chars_of(".")) && !ends_with_chars(name, &chars_of(".exe")) {
        return None;
    }
    let mut depth: usize = 0;
    let mut i: usize = 0;
    let ghost segviews = segs@.map_values(|l: Vec<char>| l@);
    proof {
        assert(segviews.skip(0) =~= segviews);
    }
    while i < segs.len()
        invariant
            i <= segs@.len(),
            segviews == segs@.map_values(|l: Vec<char>| l@),
            depth <= i,
            spec_count_nonempty(segviews) == depth + spec_count_nonempty(
                segviews.skip(i as int),
            ),
        decreases segs@.len() - i,
    {
        proof {
            assert(segviews.skip(i as int)[0] == segviews[i as int]);
            assert(segviews.skip(i as int).skip(1) =~= segviews.skip(i + 1));
        }
        if segs[i].len() > 0 {
            depth = depth + 1;
        }
        i = i + 1;
    }
    proof {
        assert(segviews.skip(segviews.len() as int) =~= Seq::<Seq<char>>::empty());
        assert(spec_count_nonempty(segviews) == depth);
    }
    if depth > 3 || contains_chars(&path, &chars_of("/test")) {
        return None;
    }
    Some(ExecutableInfo { name: string_of(name), path: string_of(&path) })
}

/// Collect every candidate executable from a textual archive listing:
/// one path per line, directory entries and clearly non-executable
/// artifacts skipped, depth capped and test directories excluded.
pub fn candidate_executables(listing: &str) -> (r: Vec<ExecutableInfo>)
    ensures
        r@.len() == spec_candidates(listing@).len(),
        forall|k: int|
            #![trigger r@[k]]
            0 <= k < r@.len() ==> r@[k].name@ == spec_candidates(listing@)[k].0 && r@[k].path@
                == spec_candidates(listing@)[k].1,
{
    let chars = chars_of(listing);
    let lines = split_on(&chars, '\n');
    let ghost lineviews = spec_listing_lines(listing@);
    let mut out: Vec<ExecutableInfo> = Vec::new();
    let mut i: usize = 0;
    proof {
        assert(lineviews =~= spec_split(listing@, '\n').map_values(
            |l: Seq<char>| spec_clean_line(l),
        ));
        assert(lineviews.take(0) =~= Seq::<Seq<char>>::empty());
        assert(spec_candidates_from(lineviews.take(0)) =~= Seq::<(Seq<char>, Seq<char>)>::empty());
    }
    while i < lines.len()
        invariant
            lines@.map_values(|l: Vec<char>| l@) == spec_split(listing@, '\n'),
            lineviews == spec_listing_lines(listing@),
            i <= lines@.len(),
            lines@.len() == lineviews.len(),
            out@.len() == spec_candidates_from(lineviews.take(i as int)).len(),
            forall|k: int|
                #![trigger out@[k]]
                0 <= k < out@.len() ==> out@[k].name@ == spec_candidates_from(
                    lineviews.take(i as int),
                )[k].0 && out@[k].path@ == spec_candidates_from(lineviews.take(i as int))[k].1,
        decreases lines@.len() - i,
    {
        let raw = &lines[i];
        proof {
            assert(lines@.map_values(|l: Vec<char>| l@)[i as int] == raw@);
            assert(lineviews[i as int] == spec_clean_line(raw@));
        }
        let mut clean: Vec<char> = Vec::new();
        let keep: usize = if raw.len() > 0 && raw[raw.len() - 1] == '\r' {
            raw.len() - 1
        } else {
            raw.len()
        };
        let mut k: usize = 0;
        while k < keep
            invariant
                keep <= raw@.len(),
                k <= keep,
                clean@ == raw@.subrange(0, k as int),
            decreases keep - k,
        {
            clean.push(raw[k]);
            k = k + 1;
            proof {
                assert(clean@ =~= raw@.subrange(0, k as int));
            }
        }
        proof {
            assert(clean@ =~= spec_clean_line(raw@));
            lemma_candidates_snoc(lineviews.take(i as int), lineviews[i as int]);
            assert(lineviews.take(i as int).push(lineviews[i as int]) =~= lineviews.take(i + 1));
        }
        match line_candidate(&clean) {
            Some(e) => {
                out.push(e);
            },
            None => {},
        }
        i = i + 1;
    }
    proof {
        assert(lineviews.take(lineviews.len() as int) =~= lineviews);
    }
    out
}

/// The name/path views of a sequence of executables.
pub open spec fn pairs_of(s: Seq<ExecutableInfo>) -> Seq<(Seq<char>, Seq<char>)> {
    s.map_values(|e: ExecutableInfo| (e.name@, e.path@))
}

/// The first pair whose name is `n`, scanning from the front.
pub open spec fn spec_first_with_name(
    pairs: Seq<(Seq<char>, Seq<char>)>,
    n: Seq<char>,
) -> Option<(Seq<char>, Seq<char>)>
    decreases pairs.len(),
{
    if pairs.len() == 0 {
        None
    } else if pairs[0].0 == n {
        Some(pairs[0])
    } else {
        spec_first_with_name(pairs.skip(1), n)
    }
}

/// The hint-driven selection: for each hint in order, the first candidate
/// carrying that exact name, when one exists.
pub open spec fn spec_hint_selection(
    pairs: Seq<(Seq<char>, Seq<char>)>,
    hints: Seq<Seq<char>>,
) -> Seq<(Seq<char>, Seq<char>)>
    decreases hints.len(),
{
    if hints.len() == 0 {
        Seq::empty()
    } else {
        (match spec_first_with_name(pairs, hints[0]) {
            Some(p) => seq![p],
            None => Seq::empty(),
        }) + spec_hint_selection(pairs, hints.skip(1))
    }
}

/// Some candidate carries exactly the tool's own name.
pub open spec fn spec_has_exact(pairs: Seq<(Seq<char>, Seq<char>)>, tool: Seq<char>) -> bool {
    exists|j: int| 0 <= j < pairs.len() && #[trigger] pairs[j].0 == tool
}

/// If no name in the first `i` pairs matches, the search result equals
/// the search over the remainder.
proof fn lemma_first_with_name_skip(pairs: Seq<(Seq<char>, Seq<char>)>, n: Seq<char>, i: int)
    requires
        0 <= i <= pairs.len(),
        forall|j: int| 0 <= j < i ==> #[trigger] pairs[j].0 != n,
    ensures
        spec_first_with_name(pairs, n) == spec_first_with_name(pairs.skip(i), n),
    decreases i,
{
    if i == 0 {
        assert(pairs.skip(0) =~= pairs);
    } else {
        assert(pairs[0].0 != n);
        assert forall|j: int| 0 <= j < i - 1 implies #[trigger] pairs.skip(1)[j].0 != n by {
            assert(pairs.skip(1)[j] == pairs[j + 1]);
        }
        lemma_first_with_name_skip(pairs.skip(1), n, i - 1);
        assert(pairs.skip(1).skip(i - 1) =~= pairs.skip(i));
    }
}

/// The position of the first candidate named `n`, if any.
fn first_with_name(candidates: &Vec<ExecutableInfo>, n: &String) -> (r: Option<usize>)
    ensures
        (match r {
            Some(i) => i < candidates@.len() && candidates@[i as int].name@ == n@
                && spec_first_with_name(pairs_of(candidates@), n@) == Some(
                (candidates@[i as int].name@, candidates@[i as int].path@),
            ),
            None => spec_first_with_name(pairs_of(candidates@), n@) is None,
        }),
{
    let ghost pairs = pairs_of(candidates@);
    let mut i: usize = 0;
    while i < candidates.len()
        invariant
            pairs == pairs_of(candidates@),
            i <= candidates@.len(),
            forall|j: int| 0 <= j < i ==> #[trigger] pairs[j].0 != n@,
        decreases candidates@.len() - i,
    {
        if candidates[i].name == *n {
            proof {
                lemma_first_with_name_skip(pairs, n@, i as int);
                assert(pairs.skip(i as int)[0] == pairs[i as int]);
                assert(pairs[i as int] == (candidates@[i as int].name@, candidates@[
                    i as int].path@));
            }
            return Some(i);
        }
        proof {
            assert(pairs[i as int] == (candidates@[i as int].name@, candidates@[i as int].path@));
        }
        i = i + 1;
    }
    proof {
        lemma_first_with_name_skip(pairs, n@, pairs.len() as int);
        assert(pairs.skip(pairs.len() as int) =~= Seq::<(Seq<char>, Seq<char>)>::empty());
    }
    None
}

/// A fresh executable record equal in value to `e`.
fn copy_executable(e: &ExecutableInfo) -> (r: ExecutableInfo)
    ensures
        r == *e,
{
    let r = ExecutableInfo { name: e.name.clone(), path: e.path.clone() };
    r
}

/// Select which candidate executables to install. With hints, exactly
/// the hinted names that are present, in hint order; when no hint
/// matches (or none is given), the heuristic picks one candidate: the
/// earliest exact match on the tool's own name, otherwise the earliest
/// among the shortest-named. No candidates at all is a failure.
pub fn select_executables(
    candidates: &Vec<ExecutableInfo>,
    tool_name: &str,
    provides_hint: &Vec<String>,
) -> (r: Result<Vec<ExecutableInfo>, InstallError>)
    ensures
        (r is Err) <==> candidates@.len() == 0,
        r matches Err(e) ==> e matches InstallError::NoExecutablesFound,
        r matches Ok(sel) ==> ({
            let pairs = pairs_of(candidates@);
            let hs = spec_hint_selection(pairs, provides_hint@.map_values(|s: String| s@));
            if hs.len() > 0 {
                pairs_of(sel@) == hs
            } else {
                sel@.len() == 1 && exists|i: int|
                    #![trigger candidates@[i]]
                    0 <= i < candidates@.len() && sel@[0] == candidates@[i] && (
                    if spec_has_exact(pairs, tool_name@) {
                        candidates@[i].name@ == tool_name@ && (forall|j: int|
                            0 <= j < i ==> #[trigger] pairs[j].0 != tool_name@)
                    } else {
                        (forall|j: int|
                            0 <= j < candidates@.len() ==> candidates@[i].name@.len() <= (
                            #[trigger] pairs[j].0).len()) && (forall|j: int|
                            0 <= j < i ==> (#[trigger] pairs[j].0).len()
                                > candidates@[i].name@.len())
                    })
            }
        }),
{
    let ghost pairs = pairs_of(candidates@);
    let ghost hviews = provides_hint@.map_values(|s: String| s@);
    let mut sel: Vec<ExecutableInfo> = Vec::new();
    let mut hi: usize = 0;
    proof {
        assert(hviews.skip(0) =~= hviews);
        assert(pairs_of(sel@) =~= Seq::<(Seq<char>, Seq<char>)>::empty());
        assert(pairs_of(sel@) + spec_hint_selection(pairs, hviews) =~= spec_hint_selection(
            pairs,
            hviews,
        ));
    }
    while hi < provides_hint.len()
        invariant
            pairs == pairs_of(candidates@),
            hviews == provides_hint@.map_values(|s: String| s@),
            hi <= provides_hint@.len(),
            spec_hint_selection(pairs, hviews) == pairs_of(sel@) + spec_hint_selection(
                pairs,
                hviews.skip(hi as int),
            ),
        decreases provides_hint@.len() - hi,
    {
        proof {
            assert(hviews.skip(hi as int)[0] == hviews[hi as int]);
            assert(hviews[hi as int] == provides_hint@[hi as int]@);
            assert(hviews.skip(hi as int).skip(1) =~= hviews.skip(hi + 1));
        }
        match first_with_name(candidates, &provides_hint[hi]) {
            Some(ci) => {
                let picked = copy_executable(&candidates[ci]);
                proof {
                    let ghost p = (candidates@[ci as int].name@, candidates@[ci as int].path@);
                    assert(spec_hint_selection(pairs, hviews.skip(hi as int)) == seq![p]
                        + spec_hint_selection(pairs, hviews.skip(hi + 1)));
                    assert(pairs_of(sel@.push(picked)) =~= pairs_of(sel@).push(p));
                    assert(pairs_of(sel@) + (seq![p] + spec_hint_selection(
                        pairs,
                        hviews.skip(hi + 1),
                    )) =~= pairs_of(sel@).push(p) + spec_hint_selection(pairs, hviews.skip(hi + 1)));
                }
                sel.push(picked);
            },
            None => {
                proof {
                    assert(spec_hint_selection(pairs, hviews.skip(hi as int))
                        =~= Seq::<(Seq<char>, Seq<char>)>::empty() + spec_hint_selection(
                        pairs,
                        hviews.skip(hi + 1),
                    ));
                    assert(Seq::<(Seq<char>, Seq<char>)>::empty() + spec_hint_selection(
                        pairs,
                        hviews.skip(hi + 1),
                    ) =~= spec_hint_selection(pairs, hviews.skip(hi + 1)));
                }
            },
        }
        hi = hi + 1;
    }
    proof {
        assert(hviews.skip(hviews.len() as int) =~= Seq::<Seq<char>>::empty());
        assert(spec_hint_selection(pairs, Seq::<Seq<char>>::empty()) =~= Seq::<
            (Seq<char>, Seq<char>),
        >::empty());
        assert(pairs_of(sel@) + Seq::<(Seq<char>, Seq<char>)>::empty() =~= pairs_of(sel@));
    }
    if sel.len() > 0 {
        proof {
            assert(candidates@.len() > 0) by {
                assert(pairs_of(sel@).len() > 0);
                lemma_hint_selection_members(pairs, hviews);
            }
        }
        return Ok(sel);
    }
    if candidates.len() == 0 {
        return Err(InstallError::NoExecutablesFound);
    }
    let tool_string = tool_name.to_owned();
    proof {
        assert(spec_hint_selection(pairs, hviews).len() == 0);
    }
    let mut i: usize = 0;
    while i < candidates.len()
        invariant
            pairs == pairs_of(candidates@),
            hviews == provides_hint@.map_values(|s: String| s@),
            spec_hint_selection(pairs, hviews).len() == 0,
            i <= candidates@.len(),
            forall|j: int| 0 <= j < i ==> #[trigger] pairs[j].0 != tool_name@,
            tool_string@ == tool_name@,
        decreases candidates@.len() - i,
    {
        if candidates[i].name == tool_string {
            let mut only: Vec<ExecutableInfo> = Vec::new();
            only.push(copy_executable(&candidates[i]));
            proof {
                assert(pairs[i as int] == (candidates@[i as int].name@, candidates@[
                    i as int].path@));
                assert(pairs[i as int].0 == tool_name@);
                assert(spec_has_exact(pairs, tool_name@));
                assert(only@[0] == candidates@[i as int]);
            }
            return Ok(only);
        }
        proof {
            assert(pairs[i as int] == (candidates@[i as int].name@, candidates@[i as int].path@));
        }
        i = i + 1;
    }
    proof {
        assert(!spec_has_exact(pairs, tool_name@));
    }
    let mut bi: usize = 0;
    let mut blen: usize = candidates[0].name.as_str().unicode_len();
    proof {
        assert(pairs[0] == (candidates@[0].name@, candidates@[0].path@));
    }
    let mut k: usize = 1;
    while k < candidates.len()
        invariant
            pairs == pairs_of(candidates@),
            candidates@.len() > 0,
            1 <= k <= candidates@.len(),
            bi < k,
            blen == candidates@[bi as int].name@.len(),
            forall|j: int| 0 <= j < k ==> blen <= (#[trigger] pairs[j].0).len(),
            forall|j: int| 0 <= j < bi ==> (#[trigger] pairs[j].0).len() > blen,
        decreases candidates@.len() - k,
    {
        let klen = candidates[k].name.as_str().unicode_len();
        proof {
            assert(pairs[k as int] == (candidates@[k as int].name@, candidates@[k as int].path@));
        }
        if klen < blen {
            bi = k;
            blen = klen;
        }
        k = k + 1;
    }
    let mut only: Vec<ExecutableInfo> = Vec::new();
    only.push(copy_executable(&candidates[bi]));
    proof {
        assert(only@[0] == candidates@[bi as int]);
    }
    Ok(only)
}

/// A nonempty hint selection implies a nonempty candidate list.
proof fn lemma_hint_selection_members(pairs: Seq<(Seq<char>, Seq<char>)>, hints: Seq<Seq<char>>)
    ensures
        pairs.len() == 0 ==> spec_hint_selection(pairs, hints).len() == 0,
    decreases hints.len(),
{
    if hints.len() == 0 {
    } else {
        lemma_hint_selection_members(pairs, hints.skip(1));
        if pairs.len() == 0 {
            assert(spec_first_with_name(pairs, hints[0]) is None);
            assert(Seq::<(Seq<char>, Seq<char>)>::empty() + spec_hint_selection(
                pairs,
                hints.skip(1),
            ) =~= spec_hint_selection(pairs, hints.skip(1)));
        }
    }
}

/// Find the executables to install from an archive listing: collect the
/// candidates, then select by hints or heuristics.
pub fn find_all_executables(
    contents: &str,
    tool_name: &str,
    provides_hint: &Vec<String>,
) -> (r: Result<Vec<ExecutableInfo>, InstallError>)
    ensures
        (r is Err) <==> spec_candidates(contents@).len() == 0,
        r matches Err(e) ==> e matches InstallError::NoExecutablesFound,
        r matches Ok(sel) ==> ({
            let pairs = spec_candidates(contents@);
            let hs = spec_hint_selection(pairs, provides_hint@.map_values(|s: String| s@));
            if hs.len() > 0 {
                pairs_of(sel@) == hs
            } else {
                sel@.len() == 1 && exists|i: int|
                    #![trigger pairs[i]]
                    0 <= i < pairs.len() && (sel@[0].name@, sel@[0].path@) == pairs[i] && (
                    if spec_has_exact(pairs, tool_name@) {
                        pairs[i].0 == tool_name@ && (forall|j: int|
                            0 <= j < i ==> #[trigger] pairs[j].0 != tool_name@)
                    } else {
                        (forall|j: int|
                            0 <= j < pairs.len() ==> pairs[i].0.len() <= (
                            #[trigger] pairs[j].0).len()) && (forall|j: int|
                            0 <= j < i ==> (#[trigger] pairs[j].0).len() > pairs[i].0.len())
                    })
            }
        }),
{
    let candidates = candidate_executables(contents);
    proof {
        assert(pairs_of(candidates@) =~= spec_candidates(contents@));
    }
    let r = select_executables(&candidates, tool_name, provides_hint);
    proof {
        if r is Ok {
            let sel = r->Ok_0;
            let pairs = spec_candidates(contents@);
            let hs = spec_hint_selection(pairs, provides_hint@.map_values(|s: String| s@));
            if hs.len() == 0 {
                let i = choose|i: int|
                    #![trigger candidates@[i]]
                    0 <= i < candidates@.len() && sel@[0] == candidates@[i] && (
                    if spec_has_exact(pairs_of(candidates@), tool_name@) {
                        candidates@[i].name@ == tool_name@ && (forall|j: int|
                            0 <= j < i ==> #[trigger] pairs_of(candidates@)[j].0 != tool_name@)
                    } else {
                        (forall|j: int|
                            0 <= j < candidates@.len() ==> candidates@[i].name@.len() <= (
                            #[trigger] pairs_of(candidates@)[j].0).len()) && (forall|j: int|
                            0 <= j < i ==> (#[trigger] pairs_of(candidates@)[j].0).len()
                                > candidates@[i].name@.len())
                    });
                assert(pairs[i] == (candidates@[i].name@, candidates@[i].path@));
            }
        }
    }
    r
}

/// The repository a release install needs: a release installer without a
/// configured `repo` is a configuration error.
pub fn require_repo(tool_config: &crate::knowledge::ToolInstaller) -> (r: Result<
    String,
    InstallError,
>)
    ensures
        (match tool_config.repo {
            Some(repo) => r matches Ok(s) && s@ == repo@,
            None => r matches Err(InstallError::MissingRepo),
        }),
{
    match &tool_config.repo {
        Some(repo) => Ok(repo.clone()),
        None => Err(InstallError::MissingRepo),
    }
}

} // verus!
