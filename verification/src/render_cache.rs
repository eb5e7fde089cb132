//! Layout of the local render-artifact cache, staging names, and the
//! least-recently-served eviction order.

use vstd::prelude::*;
use crate::text::{
    chars_of, string_of, cat, path_join, path_join_vec, starts_with_seq, starts_with_vec, slice_vec,
    chars_eq, trim, trim_vec, class_pred, ws_pred, CharClass, fmt_i64_padded, fmt_int_padded,
};
use crate::schema::{parse_i64, parse_i64_chars};
use crate::federation::{spec_is_full_commit_hash, is_full_commit_hash};
use crate::errors::BridgeError;
use crate::render_manifest::{
    RenderArtifactManifest, RenderArtifactResource, spec_resources, spec_validate_manifest,
    spec_render_failure_message,
};
use crate::pairing::{sha256, sha256_of};

verus! {

/// `<project_dir>/.vex/cache/render`, the bridge-owned root of immutable render outputs.
pub open spec fn spec_render_cache_root(project_dir: Seq<char>) -> Seq<char> {
    path_join(path_join(path_join(project_dir, ".vex"@), "cache"@), "render"@)
}

pub fn render_cache_root(project_dir: &str) -> (r: String)
    ensures
        r@ == spec_render_cache_root(project_dir@),
{
    let a = path_join_vec(&chars_of(project_dir), &chars_of(".vex"));
    let b = path_join_vec(&a, &chars_of("cache"));
    string_of(&path_join_vec(&b, &chars_of("render")))
}

/// True only for a complete 64-character hex commit hash, the name of a
/// published artifact directory.
pub fn is_commit_hash(name: &str) -> (r: bool)
    ensures
        r == spec_is_full_commit_hash(name@),
{
    is_full_commit_hash(name)
}

/// Message of the error for an incomplete commit hash.
pub const INCOMPLETE_COMMIT_HASH: &'static str = "render artifacts require a complete 64-character commit hash";

/// Render artifacts are keyed by complete commit hashes only.
pub fn validate_commit_hash(commit_hash: &str) -> (r: Result<(), BridgeError>)
    ensures
        r is Ok <==> spec_is_full_commit_hash(commit_hash@),
        r matches Err(e) ==> (e matches BridgeError::Config(m) && m@ == INCOMPLETE_COMMIT_HASH@),
{
    if is_full_commit_hash(commit_hash) {
        Ok(())
    } else {
        Err(BridgeError::Config(string_of(&chars_of(INCOMPLETE_COMMIT_HASH))))
    }
}

/// `.<commit_hash>-<unique>.partial`: a staging directory beside the final artifact.
pub fn staging_dir_name(commit_hash: &str, unique: &str) -> (r: String)
    ensures
        r@ == "."@ + commit_hash@ + "-"@ + unique@ + ".partial"@,
{
    let a = cat(&chars_of("."), &chars_of(commit_hash));
    let b = cat(&cat(&a, &chars_of("-")), &chars_of(unique));
    string_of(&cat(&b, &chars_of(".partial")))
}

pub open spec fn ends_with_seq(s: Seq<char>, p: Seq<char>) -> bool {
    p.len() <= s.len() && s.subrange(s.len() - p.len(), s.len() as int) == p
}

/// A name the bridge gives staging directories: starts with `.` and ends with `.partial`.
pub fn is_staging_name(name: &str) -> (r: bool)
    ensures
        r == (name@.len() > 0 && name@[0] == '.' && ends_with_seq(name@, ".partial"@)),
{
    let v = chars_of(name);
    let suffix = chars_of(".partial");
    if v.len() == 0 || v[0] != '.' || suffix.len() > v.len() {
        return false;
    }
    let tail = slice_vec(&v, v.len() - suffix.len(), v.len());
    chars_eq(&tail, &suffix)
}

// ---- eviction order -----------------------------------------------------------------

/// A completed artifact considered for eviction.
#[derive(Debug, Clone, PartialEq, Eq)]
pub struct CacheCandidate {
    pub commit: String,
    pub size: u64,
    pub last_access: i64,
    /// The current HEAD, a commit still being built, or an artifact being served.
    pub protected: bool,
}

/// Lexicographic order of character sequences (the order of `str` comparison).
pub open spec fn seq_lt(a: Seq<char>, b: Seq<char>) -> bool
    decreases a.len(),
{
    if b.len() == 0 {
        false
    } else if a.len() == 0 {
        true
    } else if a[0] != b[0] {
        (a[0] as u32) < (b[0] as u32)
    } else {
        seq_lt(a.drop_first(), b.drop_first())
    }
}

/// Candidate `a` is evicted before `b`: older access first, then by commit.
pub open spec fn evicts_before(a: CacheCandidate, b: CacheCandidate) -> bool {
    a.last_access < b.last_access || (a.last_access == b.last_access && seq_lt(
        a.commit@,
        b.commit@,
    ))
}

proof fn lemma_seq_lt_asym(a: Seq<char>, b: Seq<char>)
    ensures
        !(seq_lt(a, b) && seq_lt(b, a)),
    decreases a.len(),
{
    if a.len() > 0 && b.len() > 0 && a[0] == b[0] {
        lemma_seq_lt_asym(a.drop_first(), b.drop_first());
    }
}

proof fn lemma_seq_lt_trans(a: Seq<char>, b: Seq<char>, c: Seq<char>)
    requires
        seq_lt(a, b),
        seq_lt(b, c),
    ensures
        seq_lt(a, c),
    decreases a.len(),
{
    if a.len() > 0 && b.len() > 0 && c.len() > 0 && a[0] == b[0] && b[0] == c[0] {
        lemma_seq_lt_trans(a.drop_first(), b.drop_first(), c.drop_first());
    }
}

proof fn lemma_evicts_asym(a: CacheCandidate, b: CacheCandidate)
    ensures
        !(evicts_before(a, b) && evicts_before(b, a)),
{
    lemma_seq_lt_asym(a.commit@, b.commit@);
}

proof fn lemma_evicts_trans(a: CacheCandidate, b: CacheCandidate, c: CacheCandidate)
    requires
        evicts_before(a, b),
        evicts_before(b, c),
    ensures
        evicts_before(a, c),
{
    if a.last_access == b.last_access && b.last_access == c.last_access {
        lemma_seq_lt_trans(a.commit@, b.commit@, c.commit@);
    }
}

fn chars_lt(a: &Vec<char>, b: &Vec<char>) -> (r: bool)
    ensures
        r == seq_lt(a@, b@),
{
    let mut i: usize = 0;
    proof {
        assert(a@.subrange(0, a.len() as int) =~= a@);
        assert(b@.subrange(0, b.len() as int) =~= b@);
    }
    while i < a.len() && i < b.len() && a[i] == b[i]
        invariant
            i <= a.len(),
            i <= b.len(),
            seq_lt(a@, b@) == seq_lt(a@.subrange(i as int, a.len() as int), b@.subrange(i as int, b.len() as int)),
        decreases a.len() - i,
    {
        proof {
            let sa = a@.subrange(i as int, a.len() as int);
            let sb = b@.subrange(i as int, b.len() as int);
            assert(sa.drop_first() =~= a@.subrange(i + 1, a.len() as int));
            assert(sb.drop_first() =~= b@.subrange(i + 1, b.len() as int));
        }
        i = i + 1;
    }
    proof {
        assert(a@.subrange(i as int, a.len() as int).len() == a.len() - i);
    }
    if i == b.len() {
        false
    } else if i == a.len() {
        true
    } else {
        (a[i] as u32) < (b[i] as u32)
    }
}

fn before(a: &CacheCandidate, b: &CacheCandidate) -> (r: bool)
    ensures
        r == evicts_before(*a, *b),
{
    a.last_access < b.last_access || (a.last_access == b.last_access && chars_lt(
        &chars_of(a.commit.as_str()),
        &chars_of(b.commit.as_str()),
    ))
}

/// The eviction order: every unprotected candidate exactly once, none placed
/// after one it evicts before.
pub open spec fn is_eviction_order(cs: Seq<CacheCandidate>, order: Seq<usize>) -> bool {
    &&& forall|k: int| 0 <= k < order.len() ==> (#[trigger] order[k]) < cs.len() && !cs[order[k] as int].protected
    &&& forall|i: int| 0 <= i < cs.len() && !cs[i].protected ==> exists|k: int| 0 <= k < order.len() && order[k] == i
    &&& forall|k: int, l: int| 0 <= k < l < order.len() ==> (#[trigger] order[k]) != (#[trigger] order[l])
    &&& forall|k: int, l: int|
        0 <= k < l < order.len() ==> !evicts_before(cs[#[trigger] order[l] as int], cs[#[trigger] order[k] as int])
}

/// Indices of the unprotected candidates, least recently served first (ties by commit).
pub fn eviction_order(candidates: &Vec<CacheCandidate>) -> (order: Vec<usize>)
    ensures
        is_eviction_order(candidates@, order@),
{
    let mut order: Vec<usize> = Vec::new();
    let mut i: usize = 0;
    while i < candidates.len()
        invariant
            i <= candidates.len(),
            forall|k: int| 0 <= k < order@.len() ==> (#[trigger] order@[k]) < i && !candidates@[order@[k] as int].protected,
            forall|j: int| 0 <= j < i && !candidates@[j].protected ==> exists|k: int| 0 <= k < order@.len() && order@[k] == j,
            forall|k: int, l: int| 0 <= k < l < order@.len() ==> (#[trigger] order@[k]) != (#[trigger] order@[l]),
            forall|k: int, l: int|
                0 <= k < l < order@.len() ==> !evicts_before(candidates@[#[trigger] order@[l] as int], candidates@[#[trigger] order@[k] as int]),
        decreases candidates.len() - i,
    {
        if !candidates[i].protected {
            // Insert `i` after every entry it does not evict before.
            let mut pos: usize = 0;
            while pos < order.len() && !before(&candidates[i], &candidates[order[pos]])
                invariant
                    pos <= order@.len(),
                    i < candidates.len(),
                    forall|k: int| 0 <= k < order@.len() ==> (#[trigger] order@[k]) < i,
                    forall|k: int| 0 <= k < pos ==> !evicts_before(candidates@[i as int], candidates@[#[trigger] order@[k] as int]),
                decreases order.len() - pos,
            {
                pos = pos + 1;
            }
            let ghost o = order@;
            order.insert(pos, i);
            proof {
                let n = order@;
                assert(n == o.insert(pos as int, i));
                assert forall|k: int, l: int|
                    0 <= k < l < n.len() implies !evicts_before(
                    candidates@[#[trigger] n[l] as int],
                    candidates@[#[trigger] n[k] as int],
                ) by {
                    let ci = candidates@[i as int];
                    if k < pos && l < pos {
                        assert(n[k] == o[k] && n[l] == o[l]);
                    } else if k < pos && l == pos {
                        assert(n[k] == o[k]);
                    } else if k < pos && l > pos {
                        assert(n[k] == o[k] && n[l] == o[l - 1]);
                    } else if k == pos {
                        assert(n[l] == o[l - 1]);
                        let cp = candidates@[o[pos as int] as int];
                        assert(evicts_before(ci, cp));
                        lemma_evicts_asym(ci, cp);
                        if l - 1 > pos {
                            let cl = candidates@[o[l - 1] as int];
                            if evicts_before(cl, ci) {
                                lemma_evicts_trans(cl, ci, cp);
                            }
                        }
                    } else {
                        assert(n[k] == o[k - 1] && n[l] == o[l - 1]);
                    }
                }
                assert forall|k: int, l: int| 0 <= k < l < n.len() implies (#[trigger] n[k]) != (
                #[trigger] n[l]) by {
                    if k < pos && l < pos {
                        assert(n[k] == o[k] && n[l] == o[l]);
                    } else if k < pos && l == pos {
                        assert(n[k] == o[k]);
                    } else if k < pos && l > pos {
                        assert(n[k] == o[k] && n[l] == o[l - 1]);
                    } else if k == pos {
                        assert(n[l] == o[l - 1]);
                    } else {
                        assert(n[k] == o[k - 1] && n[l] == o[l - 1]);
                    }
                }
                assert forall|k: int| 0 <= k < n.len() implies (#[trigger] n[k]) < i + 1
                    && !candidates@[n[k] as int].protected by {
                    if k < pos {
                        assert(n[k] == o[k]);
                    } else if k > pos {
                        assert(n[k] == o[k - 1]);
                    }
                }
                assert forall|j: int| 0 <= j < i + 1 && !candidates@[j].protected implies exists|
                    k: int,
                | 0 <= k < n.len() && n[k] == j by {
                    if j == i {
                        assert(n[pos as int] == i);
                    } else {
                        let k = choose|k: int| 0 <= k < o.len() && o[k] == j;
                        if k < pos {
                            assert(n[k] == o[k]);
                        } else {
                            assert(n[k + 1] == o[k]);
                        }
                    }
                }
            }
        }
        i = i + 1;
    }
    order
}

// ---- publication checks --------------------------------------------------------------

/// Whether a canonical staging path belongs to the cache: its parent is the
/// canonical cache root and its name is a staging name.
pub open spec fn spec_staging_owned(root: Seq<char>, staging: Seq<char>) -> bool {
    &&& starts_with_seq(staging, root + "/"@)
    &&& !staging.subrange(root.len() as int + 1, staging.len() as int).contains('/')
    &&& {
        let name = staging.subrange(root.len() as int + 1, staging.len() as int);
        name.len() > 0 && name[0] == '.' && ends_with_seq(name, ".partial"@)
    }
}

/// The error for a staging directory outside the cache or not named as staging.
pub open spec fn not_owned_message() -> Seq<char> {
    "render artifact staging directory is not owned by the bridge cache"@
}

/// Check that a canonical staging directory sits directly in the canonical
/// cache root under a staging name.
pub fn check_staging_owned(root: &str, staging: &str) -> (r: Result<(), BridgeError>)
    ensures
        r is Ok <==> spec_staging_owned(root@, staging@),
        r matches Err(e) ==> (e matches BridgeError::Config(m) && m@ == not_owned_message()),
{
    let prefix = cat(&chars_of(root), &chars_of("/"));
    let s = chars_of(staging);
    let err = BridgeError::Config(string_of(&chars_of("render artifact staging directory is not owned by the bridge cache")));
    if !starts_with_vec(&s, &prefix) {
        return Err(err);
    }
    proof {
        reveal_strlit("/");
    }
    let name = slice_vec(&s, prefix.len(), s.len());
    match crate::text::find_char(&name, '/') {
        Some(_) => {
            proof {
                crate::text::lemma_first_index_of(name@, '/');
            }
            return Err(err);
        },
        None => {
            proof {
                crate::text::lemma_first_index_of(name@, '/');
            }
        },
    }
    let text = string_of(&name);
    if is_staging_name(text.as_str()) {
        Ok(())
    } else {
        Err(err)
    }
}

/// The manifest passes validation and names the target project and commit.
pub open spec fn spec_identity_check(m: RenderArtifactManifest, project_id: Seq<char>, commit_hash: Seq<char>) -> Result<(), Seq<char>> {
    match spec_validate_manifest(m) {
        Err(f) => Err("render artifact manifest failed validation: "@ + spec_render_failure_message(f)),
        Ok(_) => if m.project_id@ != project_id || m.commit_hash@ != commit_hash {
            Err("render artifact manifest identity does not match its target commit"@)
        } else {
            Ok(())
        },
    }
}

/// Validate a worker's manifest and its identity before publication.
pub fn validate_manifest_identity(m: &RenderArtifactManifest, project_id: &str, commit_hash: &str) -> (r: Result<(), BridgeError>)
    ensures
        match (r, spec_identity_check(*m, project_id@, commit_hash@)) {
            (Ok(()), Ok(())) => true,
            (Err(BridgeError::Config(t)), Err(u)) => t@ == u,
            _ => false,
        },
{
    match m.validate() {
        Err(e) => {
            let t = cat(&chars_of("render artifact manifest failed validation: "), &chars_of(e.message().as_str()));
            Err(BridgeError::Config(string_of(&t)))
        },
        Ok(()) => {
            if !crate::text::str_eq(m.project_id.as_str(), project_id) || !crate::text::str_eq(
                m.commit_hash.as_str(),
                commit_hash,
            ) {
                Err(
                    BridgeError::Config(
                        string_of(&chars_of("render artifact manifest identity does not match its target commit")),
                    ),
                )
            } else {
                Ok(())
            }
        },
    }
}

/// The error for a commit whose artifact is already published.
pub fn already_published(commit_hash: &str) -> (e: BridgeError)
    ensures
        e matches BridgeError::Config(m) && m@ == "a render artifact is already published for commit `"@ + commit_hash@
            + "`"@,
{
    let t = cat(&chars_of("a render artifact is already published for commit `"), &chars_of(commit_hash));
    BridgeError::Config(string_of(&cat(&t, &chars_of("`"))))
}

pub open spec fn hex_digit(n: u8) -> char
    recommends
        n < 16,
{
    if n < 10 {
        (('0' as u8) + n) as char
    } else {
        (('a' as u8) + n - 10) as char
    }
}

/// Lowercase hexadecimal text of bytes, two digits each.
pub open spec fn hex_lower(b: Seq<u8>) -> Seq<char>
    decreases b.len(),
{
    if b.len() == 0 {
        Seq::empty()
    } else {
        hex_lower(b.drop_last()) + seq![hex_digit(b.last() / 16), hex_digit(b.last() % 16)]
    }
}

fn hex_digit_exec(n: u8) -> (c: char)
    requires
        n < 16,
    ensures
        c == hex_digit(n),
{
    if n < 10 {
        (48u8 + n) as char
    } else {
        (97u8 + n - 10) as char
    }
}

pub fn hex_lower_vec(b: &[u8]) -> (r: Vec<char>)
    ensures
        r@ == hex_lower(b@),
{
    let mut out: Vec<char> = Vec::new();
    let mut i: usize = 0;
    while i < b.len()
        invariant
            i <= b.len(),
            out@ == hex_lower(b@.subrange(0, i as int)),
        decreases b.len() - i,
    {
        let x = b[i];
        out.push(hex_digit_exec(x / 16));
        out.push(hex_digit_exec(x % 16));
        proof {
            let s = b@.subrange(0, i + 1);
            assert(s.drop_last() =~= b@.subrange(0, i as int));
            assert(s.last() == x);
        }
        i = i + 1;
    }
    proof {
        assert(b@.subrange(0, b@.len() as int) =~= b@);
    }
    out
}

/// Lowercase hex SHA-256 of an object's bytes, as `format!("{:x}", digest)` gives it.
pub fn object_digest(bytes: &[u8]) -> (r: String)
    ensures
        r@ == hex_lower(sha256_of(bytes@)),
{
    let d = sha256(bytes);
    string_of(&hex_lower_vec(&d))
}

/// An object's bytes match what its manifest entry declares: its length, then its digest.
pub open spec fn spec_object_check(res: RenderArtifactResource, bytes: Seq<u8>) -> Result<(), Seq<char>> {
    if bytes.len() != res.byte_length {
        Err("render artifact object `"@ + res.sha256@ + "` length does not match its manifest"@)
    } else if hex_lower(sha256_of(bytes)) != res.sha256@ {
        Err("render artifact object `"@ + res.sha256@ + "` does not match its manifest digest"@)
    } else {
        Ok(())
    }
}

/// Check one staged object against its manifest entry.
pub fn check_object(res: &RenderArtifactResource, bytes: &[u8]) -> (r: Result<(), BridgeError>)
    ensures
        match (r, spec_object_check(*res, bytes@)) {
            (Ok(()), Ok(())) => true,
            (Err(BridgeError::Config(t)), Err(u)) => t@ == u,
            _ => false,
        },
{
    let head = cat(&chars_of("render artifact object `"), &chars_of(res.sha256.as_str()));
    if bytes.len() as u64 != res.byte_length {
        return Err(BridgeError::Config(string_of(&cat(&head, &chars_of("` length does not match its manifest")))));
    }
    let actual = object_digest(bytes);
    if !crate::text::str_eq(actual.as_str(), res.sha256.as_str()) {
        return Err(BridgeError::Config(string_of(&cat(&head, &chars_of("` does not match its manifest digest")))));
    }
    Ok(())
}

/// Indices of the manifest's resources whose objects must be checked: the
/// first resource for each distinct digest, in resource order.
pub open spec fn is_first_of_digest(rs: Seq<RenderArtifactResource>, k: int) -> bool {
    0 <= k < rs.len() && forall|j: int| 0 <= j < k ==> (#[trigger] rs[j]).sha256@ != rs[k].sha256@
}

pub fn objects_to_verify(m: &RenderArtifactManifest) -> (r: Vec<usize>)
    ensures
        forall|k: int| 0 <= k < r@.len() ==> is_first_of_digest(spec_resources(*m), #[trigger] r@[k] as int),
        forall|i: int| is_first_of_digest(spec_resources(*m), i) ==> r@.contains(i as usize),
        forall|k: int, l: int| 0 <= k < l < r@.len() ==> #[trigger] r@[k] < #[trigger] r@[l],
{
    let rs = m.resources();
    let ghost all = spec_resources(*m);
    let mut out: Vec<usize> = Vec::new();
    let mut i: usize = 0;
    while i < rs.len()
        invariant
            i <= rs.len(),
            rs@.len() == all.len(),
            forall|k: int| 0 <= k < rs@.len() ==> *(#[trigger] rs@[k]) == all[k],
            forall|k: int| 0 <= k < out@.len() ==> is_first_of_digest(all, #[trigger] out@[k] as int) && out@[k] < i,
            forall|j: int| 0 <= j < i && is_first_of_digest(all, j) ==> out@.contains(j as usize),
            forall|k: int, l: int| 0 <= k < l < out@.len() ==> #[trigger] out@[k] < #[trigger] out@[l],
        decreases rs.len() - i,
    {
        let mut j: usize = 0;
        let mut seen = false;
        while j < i
            invariant
                j <= i,
                i < rs@.len(),
                rs@.len() == all.len(),
                forall|k: int| 0 <= k < rs@.len() ==> *(#[trigger] rs@[k]) == all[k],
                !seen ==> forall|q: int| 0 <= q < j ==> (#[trigger] all[q]).sha256@ != all[i as int].sha256@,
                seen ==> exists|q: int| 0 <= q < i && (#[trigger] all[q]).sha256@ == all[i as int].sha256@,
            decreases i - j,
        {
            if crate::text::str_eq(rs[j].sha256.as_str(), rs[i].sha256.as_str()) {
                seen = true;
            }
            j = j + 1;
        }
        let ghost before = out@;
        if !seen {
            out.push(i);
            proof {
                assert(out@.last() == i);
                assert forall|q: int| 0 <= q < i + 1 && is_first_of_digest(all, q) implies out@.contains(q as usize) by {
                    if q < i {
                        assert(before.contains(q as usize));
                        let w = choose|w: int| 0 <= w < before.len() && before[w] == q as usize;
                        assert(out@[w] == q as usize);
                    } else {
                        assert(out@[out@.len() - 1] == i);
                    }
                }
            }
        } else {
            proof {
                assert(!is_first_of_digest(all, i as int));
            }
        }
        i = i + 1;
    }
    out
}

// ---- last access ---------------------------------------------------------------------

/// The file in an artifact directory that records when it was last served.
pub const ACCESS_MARKER: &'static str = ".accessed";

/// What the access marker holds for a serve at `now` (Unix seconds).
pub fn access_marker_text(now: i64) -> (r: String)
    ensures
        r@ == fmt_int_padded(now as int, 0),
{
    string_of(&fmt_i64_padded(now, 0))
}

/// The time an access marker records: its contents, trimmed, as an `i64`.
pub fn access_marker_time(contents: &str) -> (r: Option<i64>)
    ensures
        r == parse_i64(trim(contents@)),
{
    let t = trim_vec(&chars_of(contents), &CharClass::Whitespace);
    proof {
        assert(class_pred(CharClass::Whitespace) == ws_pred());
    }
    parse_i64_chars(&t)
}

pub open spec fn spec_last_access(marker: Option<Seq<char>>, manifest_mtime: Option<i64>) -> i64 {
    match marker {
        Some(m) if parse_i64(trim(m)) is Some => parse_i64(trim(m))->0,
        _ => match manifest_mtime {
            Some(t) => t,
            None => 0,
        },
    }
}

/// The time eviction orders an artifact by: the marker's time when the marker
/// was read and parses, else the validated manifest's modification time, else 0.
pub fn last_access(marker: Option<&str>, manifest_mtime: Option<i64>) -> (r: i64)
    ensures
        r == spec_last_access(
            match marker {
                Some(m) => Some(m@),
                None => None,
            },
            manifest_mtime,
        ),
{
    if let Some(m) = marker {
        if let Some(t) = access_marker_time(m) {
            return t;
        }
    }
    match manifest_mtime {
        Some(t) => t,
        None => 0,
    }
}

// ---- pruning -------------------------------------------------------------------------

/// Outcome of a pruning pass.
#[derive(Debug, Clone, PartialEq, Eq)]
pub struct RenderCachePruneReport {
    /// Commits whose artifacts were evicted, in eviction order.
    pub evicted: Vec<String>,
    /// Bytes retained across the completed artifacts after pruning.
    pub retained_bytes: u64,
    /// Number of completed artifacts considered.
    pub scanned: usize,
}

/// Total size of the candidates below `n` that are not in `gone`.
pub open spec fn kept_size(cs: Seq<CacheCandidate>, gone: Set<int>, n: int) -> int
    decreases n,
{
    if n <= 0 {
        0
    } else {
        kept_size(cs, gone, n - 1) + if gone.contains(n - 1) {
            0
        } else {
            cs[n - 1].size as int
        }
    }
}

proof fn lemma_kept_size_remove(cs: Seq<CacheCandidate>, gone: Set<int>, n: int, j: int)
    requires
        0 <= j < n,
        !gone.contains(j),
    ensures
        kept_size(cs, gone, n) >= cs[j].size,
        kept_size(cs, gone.insert(j), n) == kept_size(cs, gone, n) - cs[j].size,
    decreases n,
{
    lemma_kept_size_nonneg(cs, gone, n - 1);
    lemma_kept_size_nonneg(cs, gone.insert(j), n - 1);
    if j < n - 1 {
        lemma_kept_size_remove(cs, gone, n - 1, j);
    } else {
        lemma_kept_size_same(cs, gone, gone.insert(j), n - 1);
    }
}

proof fn lemma_kept_size_nonneg(cs: Seq<CacheCandidate>, gone: Set<int>, n: int)
    ensures
        kept_size(cs, gone, n) >= 0,
    decreases n,
{
    if n > 0 {
        lemma_kept_size_nonneg(cs, gone, n - 1);
    }
}

proof fn lemma_kept_size_same(cs: Seq<CacheCandidate>, a: Set<int>, b: Set<int>, n: int)
    requires
        forall|i: int| 0 <= i < n ==> (a.contains(i) <==> b.contains(i)),
    ensures
        kept_size(cs, a, n) == kept_size(cs, b, n),
    decreases n,
{
    if n > 0 {
        lemma_kept_size_same(cs, a, b, n - 1);
    }
}

/// A pruning pass over the completed artifacts of one cache: it evicts
/// unprotected artifacts in [`eviction_order`] while the cache is over its cap.
/// Before each removal the daemon re-checks that the directory is still
/// unserved and a real directory inside the cache, and reports whether it
/// removed it.
pub struct PrunePass {
    order: Vec<usize>,
    pos: usize,
    total: u64,
    max_bytes: u64,
    evicted: Vec<String>,
    gone: Ghost<Set<int>>,
}

impl PrunePass {
    pub closed spec fn order(&self) -> Seq<usize> {
        self.order@
    }

    pub closed spec fn pos(&self) -> int {
        self.pos as int
    }

    pub closed spec fn total(&self) -> int {
        self.total as int
    }

    pub closed spec fn max_bytes(&self) -> int {
        self.max_bytes as int
    }

    pub closed spec fn evicted(&self) -> Seq<Seq<char>> {
        self.evicted@.map_values(|c: String| c@)
    }

    /// The candidates removed so far.
    pub closed spec fn gone(&self) -> Set<int> {
        self.gone@
    }

    /// The pass is consistent with `cs`: its order is the eviction order, the
    /// removed candidates all lie before the cursor, and the running total is
    /// the size of what remains.
    pub closed spec fn wf(&self, cs: Seq<CacheCandidate>) -> bool {
        &&& is_eviction_order(cs, self.order@)
        &&& self.pos <= self.order@.len()
        &&& forall|i: int| #[trigger] self.gone@.contains(i) ==> exists|k: int|
            0 <= k < self.pos && self.order@[k] == i
        &&& self.total == kept_size(cs, self.gone@, cs.len() as int)
    }

    /// Start a pass over `candidates` against the byte cap.
    pub fn start(candidates: &Vec<CacheCandidate>, max_bytes: u64) -> (p: PrunePass)
        requires
            kept_size(candidates@, Set::empty(), candidates@.len() as int) <= u64::MAX,
        ensures
            p.wf(candidates@),
            is_eviction_order(candidates@, p.order()),
            p.pos() == 0,
            p.gone() == Set::<int>::empty(),
            p.evicted() == Seq::<Seq<char>>::empty(),
            p.max_bytes() == max_bytes,
            p.total() == kept_size(candidates@, Set::empty(), candidates@.len() as int),
    {
        let mut total: u64 = 0;
        let mut i: usize = 0;
        while i < candidates.len()
            invariant
                i <= candidates.len(),
                total == kept_size(candidates@, Set::empty(), i as int),
                kept_size(candidates@, Set::empty(), candidates@.len() as int) <= u64::MAX,
            decreases candidates.len() - i,
        {
            proof {
                lemma_kept_size_mono(candidates@, Set::empty(), i + 1, candidates@.len() as int);
            }
            total = total + candidates[i].size;
            i = i + 1;
        }
        PrunePass {
            order: eviction_order(candidates),
            pos: 0,
            total,
            max_bytes,
            evicted: Vec::new(),
            gone: Ghost(Set::empty()),
        }
    }

    /// The candidate to re-check and remove next: none once the cache is
    /// within its cap or nothing evictable is left.
    pub fn next_target(&self) -> (r: Option<usize>)
        ensures
            match r {
                None => self.total() <= self.max_bytes() || self.pos() >= self.order().len(),
                Some(i) => self.total() > self.max_bytes() && self.pos() < self.order().len() && i
                    == self.order()[self.pos()],
            },
    {
        if self.total <= self.max_bytes || self.pos >= self.order.len() {
            None
        } else {
            Some(self.order[self.pos])
        }
    }

    /// The daemon removed the candidate `next_target` named.
    pub fn removed(&mut self, candidates: &Vec<CacheCandidate>)
        requires
            old(self).wf(candidates@),
            old(self).pos() < old(self).order().len(),
        ensures
            final(self).wf(candidates@),
            final(self).pos() == old(self).pos() + 1,
            final(self).order() == old(self).order(),
            final(self).max_bytes() == old(self).max_bytes(),
            final(self).gone() == old(self).gone().insert(old(self).order()[old(self).pos()] as int),
            final(self).total() == old(self).total() - candidates@[old(self).order()[old(self).pos()] as int].size,
            final(self).evicted() == old(self).evicted().push(candidates@[old(self).order()[old(self).pos()] as int].commit@),
    {
        let i = self.order[self.pos];
        assert(self.pos < self.order.len());
        proof {
            let o = self.order@;
            assert(o[self.pos as int] < candidates@.len());
            if self.gone@.contains(i as int) {
                let k = choose|k: int| 0 <= k < self.pos && o[k] == i;
                assert(o[k] != o[self.pos as int]);
            }
            lemma_kept_size_remove(candidates@, self.gone@, candidates@.len() as int, i as int);
        }
        self.total = self.total - candidates[i].size;
        self.evicted.push(candidates[i].commit.clone());
        self.gone = Ghost(self.gone@.insert(i as int));
        self.pos = self.pos + 1;
        proof {
            assert(self.evicted@.map_values(|c: String| c@) =~= old(self).evicted@.map_values(|c: String| c@).push(
                candidates@[i as int].commit@,
            ));
            assert forall|q: int| #[trigger] self.gone@.contains(q) implies exists|k: int|
                0 <= k < self.pos && self.order@[k] == q by {
                if q == i as int {
                    assert(self.order@[self.pos - 1] == q);
                } else {
                    assert(old(self).gone@.contains(q));
                    let k = choose|k: int| 0 <= k < old(self).pos && old(self).order@[k] == q;
                    assert(self.order@[k] == q);
                }
            }
        }
    }

    /// The re-check refused the candidate `next_target` named; it stays.
    pub fn kept(&mut self, candidates: &Vec<CacheCandidate>)
        requires
            old(self).wf(candidates@),
            old(self).pos() < old(self).order().len(),
        ensures
            final(self).wf(candidates@),
            final(self).pos() == old(self).pos() + 1,
            final(self).order() == old(self).order(),
            final(self).max_bytes() == old(self).max_bytes(),
            final(self).gone() == old(self).gone(),
            final(self).total() == old(self).total(),
            final(self).evicted() == old(self).evicted(),
    {
        assert(self.pos < self.order.len());
        self.pos = self.pos + 1;
        proof {
            assert forall|q: int| #[trigger] self.gone@.contains(q) implies exists|k: int|
                0 <= k < self.pos && self.order@[k] == q by {
                assert(old(self).gone@.contains(q));
                let k = choose|k: int| 0 <= k < old(self).pos && old(self).order@[k] == q;
                assert(self.order@[k] == q);
            }
        }
    }

    /// The report of the pass.
    pub fn report(self, scanned: usize) -> (r: RenderCachePruneReport)
        ensures
            r.evicted@.map_values(|c: String| c@) == self.evicted(),
            r.retained_bytes == self.total(),
            r.scanned == scanned,
    {
        RenderCachePruneReport { evicted: self.evicted, retained_bytes: self.total, scanned }
    }
}

proof fn lemma_kept_size_mono(cs: Seq<CacheCandidate>, gone: Set<int>, a: int, b: int)
    requires
        0 <= a <= b,
    ensures
        kept_size(cs, gone, a) <= kept_size(cs, gone, b),
    decreases b - a,
{
    if a < b {
        lemma_kept_size_mono(cs, gone, a, b - 1);
    }
}

// ---- serving -------------------------------------------------------------------------

/// The artifact directories currently being read for a serve, with how many
/// serves hold each. A directory with a live serve is never evicted.
#[derive(Debug)]
pub struct ServeRegistry {
    entries: Vec<(String, usize)>,
}

/// A hold on one artifact directory for the length of a serve.
#[derive(Debug, PartialEq, Eq)]
pub struct ArtifactServeGuard {
    key: String,
}

impl ArtifactServeGuard {
    pub closed spec fn key(&self) -> Seq<char> {
        self.key@
    }
}

pub open spec fn entries_map(e: Seq<(String, usize)>) -> Map<Seq<char>, nat>
    decreases e.len(),
{
    if e.len() == 0 {
        Map::empty()
    } else {
        entries_map(e.drop_last()).insert(e.last().0@, e.last().1 as nat)
    }
}

impl ServeRegistry {
    /// Live serve counts by directory key; only positive counts are kept.
    pub closed spec fn view(&self) -> Map<Seq<char>, nat> {
        entries_map(self.entries@)
    }

    pub closed spec fn wf(&self) -> bool {
        &&& forall|i: int, j: int| 0 <= i < j < self.entries@.len() ==> (#[trigger] self.entries@[i]).0@ != (
        #[trigger] self.entries@[j]).0@
        &&& forall|i: int| 0 <= i < self.entries@.len() ==> (#[trigger] self.entries@[i]).1 > 0
    }

    pub fn new() -> (r: ServeRegistry)
        ensures
            r.wf(),
            r.view() == Map::<Seq<char>, nat>::empty(),
    {
        ServeRegistry { entries: Vec::new() }
    }

    /// Whether a serve holds this directory.
    pub fn is_being_served(&self, key: &str) -> (r: bool)
        requires
            self.wf(),
        ensures
            r == self.view().dom().contains(key@),
    {
        match self.find(key) {
            Some(i) => {
                proof {
                    lemma_entries_lookup(self.entries@, i as int);
                }
                true
            },
            None => false,
        }
    }

    fn find(&self, key: &str) -> (r: Option<usize>)
        requires
            self.wf(),
        ensures
            match r {
                Some(i) => i < self.entries@.len() && self.entries@[i as int].0@ == key@,
                None => !self.view().dom().contains(key@),
            },
    {
        let mut i: usize = 0;
        while i < self.entries.len()
            invariant
                i <= self.entries@.len(),
                forall|j: int| 0 <= j < i ==> (#[trigger] self.entries@[j]).0@ != key@,
            decreases self.entries.len() - i,
        {
            if crate::text::str_eq(self.entries[i].0.as_str(), key) {
                return Some(i);
            }
            i = i + 1;
        }
        proof {
            lemma_entries_dom(self.entries@, key@);
        }
        None
    }

    /// Hold `key` for a serve.
    pub fn acquire(&mut self, key: &str) -> (g: ArtifactServeGuard)
        requires
            old(self).wf(),
            old(self).view().dom().contains(key@) ==> old(self).view()[key@] < usize::MAX,
        ensures
            final(self).wf(),
            g.key() == key@,
            final(self).view() == after_acquire(old(self).view(), key@),
    {
        proof {
            lemma_entries_view_distinct(self.entries@);
        }
        match self.find(key) {
            Some(i) => {
                let ghost e = self.entries@;
                proof {
                    lemma_entries_lookup(e, i as int);
                }
                let n = self.entries[i].1;
                let k = self.entries[i].0.clone();
                self.entries.set(i, (k, n + 1));
                proof {
                    lemma_entries_update(e, i as int, (n + 1) as usize);
                    assert(self.entries@ == e.update(i as int, (k, (n + 1) as usize)));
                    assert forall|a: int, b: int| 0 <= a < b < self.entries@.len() implies (
                    #[trigger] self.entries@[a]).0@ != (#[trigger] self.entries@[b]).0@ by {
                        assert(e[a].0@ != e[b].0@);
                    }
                }
            },
            None => {
                let ghost e = self.entries@;
                proof {
                    assert forall|j: int| 0 <= j < e.len() implies (#[trigger] e[j]).0@ != key@ by {
                        if e[j].0@ == key@ {
                            lemma_entries_lookup(e, j);
                        }
                    }
                }
                self.entries.push((crate::text::owned(key), 1));
                proof {
                    assert(self.entries@.drop_last() =~= e);
                    assert forall|a: int, b: int| 0 <= a < b < self.entries@.len() implies (
                    #[trigger] self.entries@[a]).0@ != (#[trigger] self.entries@[b]).0@ by {
                        if b == e.len() {
                            assert(self.entries@[a] == e[a]);
                        } else {
                            assert(self.entries@[a] == e[a] && self.entries@[b] == e[b]);
                        }
                    }
                }
            },
        }
        ArtifactServeGuard { key: crate::text::owned(key) }
    }

    /// End the serve `g` held.
    pub fn release(&mut self, g: ArtifactServeGuard)
        requires
            old(self).wf(),
        ensures
            final(self).wf(),
            final(self).view() == after_release(old(self).view(), g.key()),
    {
        match self.find(g.key.as_str()) {
            Some(i) => {
                let ghost e = self.entries@;
                proof {
                    lemma_entries_lookup(e, i as int);
                }
                let n = self.entries[i].1;
                if n <= 1 {
                    self.entries.remove(i);
                    proof {
                        lemma_entries_remove(e, i as int);
                    }
                } else {
                    let k = self.entries[i].0.clone();
                    self.entries.set(i, (k, n - 1));
                    proof {
                        lemma_entries_update(e, i as int, (n - 1) as usize);
                    }
                }
            },
            None => {},
        }
    }
}

proof fn lemma_entries_dom(e: Seq<(String, usize)>, key: Seq<char>)
    requires
        forall|j: int| 0 <= j < e.len() ==> (#[trigger] e[j]).0@ != key,
    ensures
        !entries_map(e).dom().contains(key),
    decreases e.len(),
{
    if e.len() > 0 {
        lemma_entries_dom(e.drop_last(), key);
    }
}

proof fn lemma_entries_view_distinct(e: Seq<(String, usize)>)
    ensures
        forall|k: Seq<char>| #[trigger] entries_map(e).dom().contains(k) ==> exists|j: int| 0 <= j < e.len() && e[j].0@ == k,
    decreases e.len(),
{
    if e.len() > 0 {
        lemma_entries_view_distinct(e.drop_last());
        assert forall|k: Seq<char>| #[trigger] entries_map(e).dom().contains(k) implies exists|j: int|
            0 <= j < e.len() && e[j].0@ == k by {
            if k != e.last().0@ {
                assert(entries_map(e.drop_last()).dom().contains(k));
                let j = choose|j: int| 0 <= j < e.drop_last().len() && e.drop_last()[j].0@ == k;
                assert(e[j].0@ == k);
            } else {
                assert(e[e.len() - 1].0@ == k);
            }
        }
    }
}

proof fn lemma_entries_lookup(e: Seq<(String, usize)>, i: int)
    requires
        0 <= i < e.len(),
        forall|a: int, b: int| 0 <= a < b < e.len() ==> (#[trigger] e[a]).0@ != (#[trigger] e[b]).0@,
    ensures
        entries_map(e).dom().contains(e[i].0@),
        entries_map(e)[e[i].0@] == e[i].1 as nat,
    decreases e.len(),
{
    if i < e.len() - 1 {
        lemma_entries_lookup(e.drop_last(), i);
    }
}

proof fn lemma_entries_update(e: Seq<(String, usize)>, i: int, v: usize)
    requires
        0 <= i < e.len(),
        forall|a: int, b: int| 0 <= a < b < e.len() ==> (#[trigger] e[a]).0@ != (#[trigger] e[b]).0@,
    ensures
        forall|k: String| k@ == e[i].0@ ==> entries_map(#[trigger] e.update(i, (k, v))) == entries_map(e).insert(e[i].0@, v as nat),
    decreases e.len(),
{
    assert forall|k: String| k@ == e[i].0@ implies entries_map(#[trigger] e.update(i, (k, v))) == entries_map(e).insert(
        e[i].0@,
        v as nat,
    ) by {
        lemma_entries_update_one(e, i, k, v);
    }
}

proof fn lemma_entries_update_one(e: Seq<(String, usize)>, i: int, k: String, v: usize)
    requires
        0 <= i < e.len(),
        k@ == e[i].0@,
        forall|a: int, b: int| 0 <= a < b < e.len() ==> (#[trigger] e[a]).0@ != (#[trigger] e[b]).0@,
    ensures
        entries_map(e.update(i, (k, v))) == entries_map(e).insert(e[i].0@, v as nat),
    decreases e.len(),
{
    let u = e.update(i, (k, v));
    if i == e.len() - 1 {
        assert(u.drop_last() =~= e.drop_last());
        assert(entries_map(u) =~= entries_map(e).insert(e[i].0@, v as nat));
    } else {
        assert(u.drop_last() =~= e.drop_last().update(i, (k, v)));
        lemma_entries_update_one(e.drop_last(), i, k, v);
        assert(e.last().0@ != e[i].0@);
        assert(entries_map(u) =~= entries_map(e).insert(e[i].0@, v as nat));
    }
}

proof fn lemma_entries_remove(e: Seq<(String, usize)>, i: int)
    requires
        0 <= i < e.len(),
        forall|a: int, b: int| 0 <= a < b < e.len() ==> (#[trigger] e[a]).0@ != (#[trigger] e[b]).0@,
    ensures
        entries_map(e.remove(i)) == entries_map(e).remove(e[i].0@),
    decreases e.len(),
{
    let r = e.remove(i);
    if i == e.len() - 1 {
        assert(r =~= e.drop_last());
        lemma_entries_dom(e.drop_last(), e[i].0@);
        assert(entries_map(r) =~= entries_map(e).remove(e[i].0@));
    } else {
        assert(r.drop_last() =~= e.drop_last().remove(i));
        assert(r.last() == e.last());
        lemma_entries_remove(e.drop_last(), i);
        assert(entries_map(r) =~= entries_map(e).remove(e[i].0@));
    }
}

/// Releasing a serve right after acquiring it leaves the registry as it was.
pub proof fn law_release_undoes_acquire(before: Map<Seq<char>, nat>, key: Seq<char>)
    requires
        forall|k: Seq<char>| #[trigger] before.dom().contains(k) ==> before[k] > 0,
    ensures
        after_release(after_acquire(before, key), key) == before,
{
    let held = after_acquire(before, key);
    if before.dom().contains(key) {
        assert(held.insert(key, (held[key] - 1) as nat) =~= before);
    } else {
        assert(held.remove(key) =~= before);
    }
}

/// Pruning never evicts a protected artifact: every artifact a pass has
/// removed was unprotected.
pub proof fn law_prune_spares_protected(p: PrunePass, cs: Seq<CacheCandidate>, i: int)
    requires
        p.wf(cs),
        p.gone().contains(i),
    ensures
        0 <= i < cs.len(),
        !cs[i].protected,
{
    let k = choose|k: int| 0 <= k < p.pos() && p.order()[k] == i;
    assert(p.order()[k] < cs.len() && !cs[p.order()[k] as int].protected);
}


/// A pass stops only under the cap or once every unprotected artifact has been
/// tried: when no target is left and the cache is still over the cap, each
/// unprotected candidate was already considered.
pub proof fn law_pass_ends_under_cap_or_exhausted(p: PrunePass, cs: Seq<CacheCandidate>, i: int)
    requires
        p.wf(cs),
        !(p.total() > p.max_bytes() && p.pos() < p.order().len()),
        0 <= i < cs.len(),
        !cs[i].protected,
    ensures
        p.total() <= p.max_bytes() || exists|k: int| 0 <= k < p.pos() && p.order()[k] == i,
{
    if p.total() > p.max_bytes() {
        let k = choose|k: int| 0 <= k < p.order().len() && p.order()[k] == i;
        assert(0 <= k < p.pos() && p.order()[k] == i);
    }
}


/// The serve key of a published artifact: its directory under the cache root.
pub open spec fn artifact_key(root: Seq<char>, commit: Seq<char>) -> Seq<char> {
    path_join(root, commit)
}

/// The key a serve of `commit`'s artifact holds in the registry.
pub fn artifact_serve_key(root: &str, commit: &str) -> (r: String)
    ensures
        r@ == artifact_key(root@, commit@),
{
    string_of(&path_join_vec(&chars_of(root), &chars_of(commit)))
}

/// A candidate is protected when pinned by the caller (the current HEAD, a
/// commit still building) or held by a live serve in the registry view `m`.
pub open spec fn spec_is_protected(m: Map<Seq<char>, nat>, root: Seq<char>, commit: Seq<char>, pinned: bool) -> bool {
    pinned || m.dom().contains(artifact_key(root, commit))
}

/// Whether a pruning candidate is protected (see [`spec_is_protected`]).
pub fn is_protected(registry: &ServeRegistry, root: &str, commit: &str, pinned: bool) -> (r: bool)
    requires
        registry.wf(),
    ensures
        r == spec_is_protected(registry.view(), root@, commit@, pinned),
{
    if pinned {
        return true;
    }
    let key = artifact_serve_key(root, commit);
    registry.is_being_served(key.as_str())
}

/// A pruning candidate for the artifact of `commit` under `root`, protected
/// as [`is_protected`] decides from the live serves.
pub fn protected_candidate(
    registry: &ServeRegistry,
    root: &str,
    commit: String,
    size: u64,
    last_access: i64,
    pinned: bool,
) -> (c: CacheCandidate)
    requires
        registry.wf(),
    ensures
        c.commit == commit,
        c.size == size,
        c.last_access == last_access,
        c.protected == spec_is_protected(registry.view(), root@, commit@, pinned),
{
    let protected = is_protected(registry, root, commit.as_str(), pinned);
    CacheCandidate { commit, size, last_access, protected }
}

/// The registry view after one `acquire` of `k`.
pub open spec fn after_acquire(m: Map<Seq<char>, nat>, k: Seq<char>) -> Map<Seq<char>, nat> {
    m.insert(
        k,
        if m.dom().contains(k) {
            m[k] + 1
        } else {
            1nat
        },
    )
}

/// The registry view after one `release` of a guard for `k`.
pub open spec fn after_release(m: Map<Seq<char>, nat>, k: Seq<char>) -> Map<Seq<char>, nat> {
    if !m.dom().contains(k) {
        m
    } else if m[k] <= 1 {
        m.remove(k)
    } else {
        m.insert(k, (m[k] - 1) as nat)
    }
}

pub open spec fn acquired_times(m: Map<Seq<char>, nat>, k: Seq<char>, n: nat) -> Map<Seq<char>, nat>
    decreases n,
{
    if n == 0 {
        m
    } else {
        after_acquire(acquired_times(m, k, (n - 1) as nat), k)
    }
}

pub open spec fn released_times(m: Map<Seq<char>, nat>, k: Seq<char>, n: nat) -> Map<Seq<char>, nat>
    decreases n,
{
    if n == 0 {
        m
    } else {
        after_release(released_times(m, k, (n - 1) as nat), k)
    }
}

proof fn lemma_acquired_times(m: Map<Seq<char>, nat>, k: Seq<char>, n: nat)
    requires
        !m.dom().contains(k),
        n >= 1,
    ensures
        acquired_times(m, k, n) == m.insert(k, n),
    decreases n,
{
    if n > 1 {
        lemma_acquired_times(m, k, (n - 1) as nat);
        assert(m.insert(k, (n - 1) as nat).insert(k, n) =~= m.insert(k, n));
    } else {
        assert(acquired_times(m, k, 0) == m);
    }
}

proof fn lemma_released_times(m: Map<Seq<char>, nat>, k: Seq<char>, n: nat, j: nat)
    requires
        !m.dom().contains(k),
        j <= n,
        n >= 1,
    ensures
        j < n ==> released_times(m.insert(k, n), k, j) == m.insert(k, (n - j) as nat),
        j == n ==> released_times(m.insert(k, n), k, j) == m,
    decreases j,
{
    if j > 0 {
        lemma_released_times(m, k, n, (j - 1) as nat);
        let prev = m.insert(k, (n - (j - 1)) as nat);
        if j < n {
            assert(prev.insert(k, (n - j) as nat) =~= m.insert(k, (n - j) as nat));
        } else {
            assert(prev.remove(k) =~= m);
        }
    }
}

/// A held serve keeps its artifact: after `n` serves of an artifact were
/// acquired on a registry that held none of it, and while fewer than `n` have
/// been released, the artifact counts as served, so a pruning pass over
/// candidates built by [`protected_candidate`] from that registry never evicts
/// it; releasing all `n` ends the hold and leaves the registry as it was.
pub proof fn law_held_serve_is_never_evicted(
    m: Map<Seq<char>, nat>,
    root: Seq<char>,
    n: nat,
    j: nat,
    p: PrunePass,
    cs: Seq<CacheCandidate>,
    i: int,
    pinned: bool,
)
    requires
        0 <= i < cs.len(),
        !m.dom().contains(artifact_key(root, cs[i].commit@)),
        n >= 1,
        j < n,
        p.wf(cs),
        cs[i].protected == spec_is_protected(
            released_times(acquired_times(m, artifact_key(root, cs[i].commit@), n), artifact_key(root, cs[i].commit@), j),
            root,
            cs[i].commit@,
            pinned,
        ),
    ensures
        released_times(acquired_times(m, artifact_key(root, cs[i].commit@), n), artifact_key(root, cs[i].commit@), j).dom().contains(
            artifact_key(root, cs[i].commit@),
        ),
        !p.gone().contains(i),
        released_times(acquired_times(m, artifact_key(root, cs[i].commit@), n), artifact_key(root, cs[i].commit@), n)
            == m,
{
    let k = artifact_key(root, cs[i].commit@);
    lemma_acquired_times(m, k, n);
    lemma_released_times(m, k, n, j);
    lemma_released_times(m, k, n, n);
    if p.gone().contains(i) {
        law_prune_spares_protected(p, cs, i);
    }
}

} // verus!
