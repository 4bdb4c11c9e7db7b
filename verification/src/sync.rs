//! Gist-sync support: content hashing, gist-id parsing, and the decision
//! a sync takes from the local, remote and last-synced hashes.

use crate::text::{chars_of, chars_eq, spec_split, split_on, string_of};
use vstd::prelude::*;

verus! {

/// The SHA-256 digest of a character string's UTF-8 bytes; it depends on
/// the string alone.
pub uninterp spec fn sha256_of(content: Seq<char>) -> Seq<u8>;

/// Relies on `sha2::Sha256` (through `digest`): hashing is a function of
/// the input bytes alone, and a SHA-256 digest is 32 bytes long.
#[verifier::external_body]
fn sha256_digest(content: &str) -> (r: Vec<u8>)
    ensures
        r@ == sha256_of(content@),
        r@.len() == 32,
{
    <sha2::Sha256 as sha2::Digest>::digest(content.as_bytes()).to_vec()
}

/// The lower-case hex digit for a value below sixteen.
pub open spec fn spec_hex_digit(n: u8) -> char {
    if n < 10 {
        ((n + 48) as char)
    } else {
        ((n + 87) as char)
    }
}

/// The lower-case hex encoding of a byte string, two digits per byte.
pub open spec fn spec_hex(bytes: Seq<u8>) -> Seq<char>
    decreases bytes.len(),
{
    if bytes.len() == 0 {
        Seq::empty()
    } else {
        seq![spec_hex_digit(bytes[0] / 16), spec_hex_digit(bytes[0] % 16)] + spec_hex(
            bytes.skip(1),
        )
    }
}

/// The hex encoding of a byte vector.
fn hex_chars(bytes: &Vec<u8>) -> (r: Vec<char>)
    ensures
        r@ == spec_hex(bytes@),
{
    let mut out: Vec<char> = Vec::new();
    let mut i: usize = 0;
    proof {
        assert(bytes@.skip(0) =~= bytes@);
        assert(out@ + spec_hex(bytes@) =~= spec_hex(bytes@));
    }
    while i < bytes.len()
        invariant
            i <= bytes@.len(),
            spec_hex(bytes@) == out@ + spec_hex(bytes@.skip(i as int)),
        decreases bytes@.len() - i,
    {
        let b = bytes[i];
        let hi = b / 16;
        let lo = b % 16;
        proof {
            assert(bytes@.skip(i as int)[0] == bytes@[i as int]);
            assert(bytes@.skip(i as int).skip(1) =~= bytes@.skip(i + 1));
        }
        let ghost out0 = out@;
        if hi < 10 {
            out.push((hi + 48) as char);
        } else {
            out.push((hi + 87) as char);
        }
        if lo < 10 {
            out.push((lo + 48) as char);
        } else {
            out.push((lo + 87) as char);
        }
        proof {
            assert(out@ =~= out0 + seq![
                spec_hex_digit(bytes@[i as int] / 16),
                spec_hex_digit(bytes@[i as int] % 16),
            ]);
            assert(out0 + (seq![
                spec_hex_digit(bytes@[i as int] / 16),
                spec_hex_digit(bytes@[i as int] % 16),
            ] + spec_hex(bytes@.skip(i + 1))) =~= out@ + spec_hex(bytes@.skip(i + 1)));
        }
        i = i + 1;
    }
    proof {
        assert(bytes@.skip(bytes@.len() as int) =~= Seq::<u8>::empty());
        assert(spec_hex(Seq::<u8>::empty()) =~= Seq::<char>::empty());
        assert(out@ + Seq::<char>::empty() =~= out@);
    }
    out
}

/// The stored form of a content hash: a `sha256:` tag followed by the
/// digest in lower-case hex.
pub fn hash_file_contents(content: &str) -> (r: String)
    ensures
        r@ == "sha256:"@ + spec_hex(sha256_of(content@)),
{
    let digest = sha256_digest(content);
    let hex = hex_chars(&digest);
    let mut out = chars_of("sha256:");
    let ghost prefix = out@;
    let mut i: usize = 0;
    while i < hex.len()
        invariant
            prefix == "sha256:"@,
            hex@ == spec_hex(sha256_of(content@)),
            i <= hex@.len(),
            out@ == prefix + hex@.subrange(0, i as int),
        decreases hex@.len() - i,
    {
        out.push(hex[i]);
        i = i + 1;
        proof {
            assert(out@ =~= prefix + hex@.subrange(0, i as int));
        }
    }
    proof {
        assert(out@ =~= prefix + hex@);
    }
    string_of(&out)
}

/// `s` without its trailing run of the character `c`.
pub open spec fn spec_strip_trailing(s: Seq<char>, c: char) -> Seq<char>
    decreases s.len(),
{
    if s.len() > 0 && s[s.len() - 1] == c {
        spec_strip_trailing(s.take(s.len() - 1), c)
    } else {
        s
    }
}

/// Whether the character is an ASCII letter or digit.
pub open spec fn spec_is_alnum(c: char) -> bool {
    (48 <= c as u32 && c as u32 <= 57) || (65 <= c as u32 && c as u32 <= 90) || (97 <= c as u32
        && c as u32 <= 122)
}

/// Every character of `s` is an ASCII letter or digit.
pub open spec fn spec_all_alnum(s: Seq<char>) -> bool {
    forall|i: int| 0 <= i < s.len() ==> spec_is_alnum(s[i])
}

/// Parse a gist id out of a gist URL: the last `/`-separated part of the
/// URL with trailing slashes removed, required to look like an id — at
/// least five characters, all alphanumeric — in a URL of at least two
/// parts.
pub fn extract_gist_id(url: &str) -> (r: Result<String, String>)
    ensures
        ({
            let stripped = spec_strip_trailing(url@, '/');
            let parts = spec_split(stripped, '/');
            match r {
                Ok(id) => parts.len() >= 2 && id@ == parts.last() && id@.len() >= 5
                    && spec_all_alnum(id@),
                Err(_) => parts.len() < 2 || parts.last().len() < 5 || !spec_all_alnum(
                    parts.last(),
                ),
            }
        }),
{
    let v = chars_of(url);
    let mut end: usize = v.len();
    proof {
        assert(v@.take(v@.len() as int) =~= v@);
    }
    while end > 0 && v[end - 1] == '/'
        invariant
            end <= v@.len(),
            spec_strip_trailing(v@, '/') == spec_strip_trailing(v@.take(end as int), '/'),
        decreases end,
    {
        proof {
            let cur = v@.take(end as int);
            assert(cur[cur.len() - 1] == v@[end - 1]);
            assert(cur.take(cur.len() - 1) =~= v@.take(end - 1));
        }
        end = end - 1;
    }
    proof {
        let cur = v@.take(end as int);
        if end > 0 {
            assert(cur[cur.len() - 1] == v@[end - 1]);
            assert(spec_strip_trailing(cur, '/') == cur);
        } else {
            assert(cur =~= Seq::<char>::empty());
            assert(spec_strip_trailing(cur, '/') == cur);
        }
    }
    let mut stripped: Vec<char> = Vec::new();
    let mut i: usize = 0;
    while i < end
        invariant
            end <= v@.len(),
            i <= end,
            stripped@ == v@.subrange(0, i as int),
        decreases end - i,
    {
        stripped.push(v[i]);
        i = i + 1;
        proof {
            assert(stripped@ =~= v@.subrange(0, i as int));
        }
    }
    proof {
        assert(stripped@ =~= v@.take(end as int));
    }
    let parts = split_on(&stripped, '/');
    proof {
        crate::text::lemma_split_nonempty(stripped@, '/');
    }
    if parts.len() < 2 {
        return Err("Invalid gist URL format".to_owned());
    }
    let id = &parts[parts.len() - 1];
    proof {
        assert(parts@.map_values(|l: Vec<char>| l@)[parts@.len() - 1] == id@);
        assert(spec_split(stripped@, '/').last() == id@);
    }
    if id.len() < 5 {
        return Err("Invalid gist ID format".to_owned());
    }
    let mut k: usize = 0;
    while k < id.len()
        invariant
            id@ == spec_split(spec_strip_trailing(url@, '/'), '/').last(),
            id@.len() >= 5,
            spec_split(spec_strip_trailing(url@, '/'), '/').len() >= 2,
            k <= id@.len(),
            forall|j: int| 0 <= j < k ==> spec_is_alnum(id@[j]),
        decreases id@.len() - k,
    {
        let u = id[k] as u32;
        let ok = (48 <= u && u <= 57) || (65 <= u && u <= 90) || (97 <= u && u <= 122);
        if !ok {
            return Err("Invalid gist ID format".to_owned());
        }
        k = k + 1;
    }
    Ok(string_of(id))
}

/// What one sync run does, given the three hashes it sees.
pub enum SyncAction {
    /// Neither side changed since the last sync.
    AlreadySynced,
    /// Only the local knowledge changed: push it.
    Push,
    /// Only the remote gist changed: pull it.
    Pull,
    /// Both changed: the user must resolve the conflict.
    Conflict,
}

/// Decide a sync run from the hash of the local content, the hash of the
/// remote content, and the hash recorded at the last sync.
pub fn sync_decision(local_hash: &String, remote_hash: &String, last_hash: &String) -> (r:
    SyncAction)
    ensures
        ({
            let local_changed = local_hash@ != last_hash@;
            let remote_changed = remote_hash@ != last_hash@;
            match r {
                SyncAction::AlreadySynced => !local_changed && !remote_changed,
                SyncAction::Push => local_changed && !remote_changed,
                SyncAction::Pull => !local_changed && remote_changed,
                SyncAction::Conflict => local_changed && remote_changed,
            }
        }),
{
    let local_changed = !(*local_hash == *last_hash);
    let remote_changed = !(*remote_hash == *last_hash);
    if !local_changed && !remote_changed {
        SyncAction::AlreadySynced
    } else if local_changed && !remote_changed {
        SyncAction::Push
    } else if !local_changed && remote_changed {
        SyncAction::Pull
    } else {
        SyncAction::Conflict
    }
}

/// The owner segment of a gist URL: the fourth `/`-separated part, after
/// the scheme's two slashes and the host, or the empty string when the
/// URL is too short.
pub fn gist_owner(url: &str) -> (r: String)
    ensures
        ({
            let parts = spec_split(url@, '/');
            if parts.len() > 3 {
                r@ == parts[3]
            } else {
                r@.len() == 0
            }
        }),
{
    let v = chars_of(url);
    let parts = split_on(&v, '/');
    if parts.len() > 3 {
        proof {
            assert(parts@.map_values(|l: Vec<char>| l@)[3] == parts@[3]@);
        }
        string_of(&parts[3])
    } else {
        String::new()
    }
}

} // verus!
