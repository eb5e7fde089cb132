//! The IFC intake pipeline: which exported files a watch picks up, how a
//! settled export is routed, committed and archived, and the sequence of
//! steps one run takes. The steps themselves (waiting for a file to settle,
//! hashing, calling the engine, persisting state) are carried out by the
//! daemon, which feeds each outcome back into [`PipelineRun::step`].

use vstd::prelude::*;
use vstd::utf8::encode_utf8;
use crate::text::{
    chars_of, string_of, cat, owned, str_eq, starts_with_seq, starts_with_vec, strip_prefix_vec,
    slice_vec, first_index_char, dec, fmt_int, dec_chars_u128, fmt_i64_padded, occurs_at,
    occurs_at_exec,
};
use crate::pathname::{
    file_name, extension, file_stem, has_component, opt_string_view, path_file_name, path_extension,
    path_file_stem, path_has_component,
};
use crate::config::{Config, WatchEntry};
use crate::ifc::{IfcIntake, opt_view, spec_structural_fingerprint, spec_routing_key, blake3_hex, blake3_hex_digest};
use crate::wire::{ActivityEvent, ActivityKind};
use crate::errors::{BridgeError, spec_error_message};

verus! {

// ---- which files a watch picks up ----------------------------------------------------

pub open spec fn ascii_lower(c: char) -> char {
    if 'A' <= c <= 'Z' {
        ((c as u32) + 32) as char
    } else {
        c
    }
}

pub open spec fn eq_ignore_ascii_case(a: Seq<char>, b: Seq<char>) -> bool {
    a.len() == b.len() && forall|i: int| 0 <= i < a.len() ==> ascii_lower(#[trigger] a[i]) == ascii_lower(b[i])
}

/// A path names an `.ifc` export (extension compared without ASCII case) that
/// does not live under a `.vex` directory.
pub open spec fn spec_is_ifc_candidate(p: Seq<char>) -> bool {
    &&& extension(p) matches Some(e) && eq_ignore_ascii_case(e, "ifc"@)
    &&& !has_component(p, ".vex"@)
}

fn lower_char(c: char) -> (r: char)
    ensures
        r == ascii_lower(c),
{
    if 'A' <= c && c <= 'Z' {
        let v: u32 = (c as u32) + 32;
        proof {
            assert(v <= 0x7f);
        }
        (v as u8) as char
    } else {
        c
    }
}

fn chars_eq_ignore_ascii_case(a: &Vec<char>, b: &Vec<char>) -> (r: bool)
    ensures
        r == eq_ignore_ascii_case(a@, b@),
{
    if a.len() != b.len() {
        return false;
    }
    let mut i: usize = 0;
    while i < a.len()
        invariant
            a.len() == b.len(),
            i <= a.len(),
            forall|j: int| 0 <= j < i ==> ascii_lower(#[trigger] a@[j]) == ascii_lower(b@[j]),
        decreases a.len() - i,
    {
        if lower_char(a[i]) != lower_char(b[i]) {
            return false;
        }
        i = i + 1;
    }
    true
}

/// Whether `path` is an IFC export the pipeline should consider.
pub fn is_ifc_candidate(path: &str) -> (r: bool)
    ensures
        r == spec_is_ifc_candidate(path@),
{
    proof {
        reveal_strlit(".vex");
    }
    let has_ifc_extension = match path_extension(path) {
        Some(e) => chars_eq_ignore_ascii_case(&chars_of(e.as_str()), &chars_of("ifc")),
        None => false,
    };
    has_ifc_extension && !path_has_component(path, ".vex")
}

pub open spec fn pattern_admits(pattern: Seq<char>, p: Seq<char>, name: Seq<char>) -> bool {
    if pattern == "*"@ {
        true
    } else if pattern == "*.ifc"@ || pattern == "*.IFC"@ {
        spec_is_ifc_candidate(p)
    } else {
        pattern == name
    }
}

/// A watch's include patterns admit `p`: every path when there are none;
/// otherwise `*` admits everything, `*.ifc` / `*.IFC` admit IFC candidates,
/// and any other pattern must equal the file name.
pub open spec fn spec_matches_include(p: Seq<char>, patterns: Seq<String>) -> bool {
    if patterns.len() == 0 {
        true
    } else {
        match file_name(p) {
            None => false,
            Some(name) => exists|i: int| 0 <= i < patterns.len() && pattern_admits(#[trigger] patterns[i]@, p, name),
        }
    }
}

/// Whether the include patterns of a watch admit `path`.
pub fn matches_include(path: &str, patterns: &Vec<String>) -> (r: bool)
    ensures
        r == spec_matches_include(path@, patterns@),
{
    if patterns.len() == 0 {
        return true;
    }
    let name = match path_file_name(path) {
        Some(n) => n,
        None => return false,
    };
    let ifc = is_ifc_candidate(path);
    let mut i: usize = 0;
    while i < patterns.len()
        invariant
            i <= patterns.len(),
            name@ == file_name(path@)->0,
            file_name(path@) is Some,
            ifc == spec_is_ifc_candidate(path@),
            forall|j: int| 0 <= j < i ==> !pattern_admits(#[trigger] patterns@[j]@, path@, name@),
        decreases patterns.len() - i,
    {
        let pat = patterns[i].as_str();
        let admits = if str_eq(pat, "*") {
            true
        } else if str_eq(pat, "*.ifc") || str_eq(pat, "*.IFC") {
            ifc
        } else {
            str_eq(pat, name.as_str())
        };
        if admits {
            return true;
        }
        i = i + 1;
    }
    false
}

/// Whether a change event for `path` starts a pipeline run for this watch.
pub fn should_process(path: &str, entry: &WatchEntry) -> (r: bool)
    ensures
        r == (spec_is_ifc_candidate(path@) && spec_matches_include(path@, entry.include_globs@)),
{
    is_ifc_candidate(path) && matches_include(path, &entry.include_globs)
}

pub open spec fn spec_file_label(p: Seq<char>) -> Seq<char> {
    match file_name(p) {
        Some(n) => n,
        None => "model.ifc"@,
    }
}

/// The file name shown for `path` in activity messages (`model.ifc` when it has none).
pub fn file_label(path: &str) -> (r: String)
    ensures
        r@ == spec_file_label(path@),
{
    match path_file_name(path) {
        Some(n) => n,
        None => owned("model.ifc"),
    }
}

// ---- routing and commit metadata ----------------------------------------------------

/// An export belongs to a watch: the watch names no route, or its route is a
/// `fingerprint:` that equals the export's structural fingerprint, or any
/// other route that equals the export's routing key.
pub open spec fn spec_entry_matches_ifc(entry: WatchEntry, intake: IfcIntake) -> bool {
    match entry.ifc_project_guid {
        None => true,
        Some(expected) => if starts_with_seq(expected@, "fingerprint:"@) {
            spec_structural_fingerprint(intake) == Some(expected@)
        } else {
            spec_routing_key(intake) == Some(expected@)
        },
    }
}

fn opt_equals(actual: Option<String>, expected: &str) -> (r: bool)
    ensures
        r == (opt_view(actual) == Some(expected@)),
{
    match actual {
        Some(a) => str_eq(a.as_str(), expected),
        None => false,
    }
}

/// Whether an export's header routes it to this watch.
pub fn entry_matches_ifc(entry: &WatchEntry, intake: &IfcIntake) -> (r: bool)
    ensures
        r == spec_entry_matches_ifc(*entry, *intake),
{
    match &entry.ifc_project_guid {
        None => true,
        Some(expected) => {
            if starts_with_vec(&chars_of(expected.as_str()), &chars_of("fingerprint:")) {
                opt_equals(intake.structural_fingerprint(), expected.as_str())
            } else {
                opt_equals(intake.routing_key(), expected.as_str())
            }
        },
    }
}

pub open spec fn first_some(a: Option<String>, b: Option<String>, fallback: Seq<char>) -> Seq<char> {
    match a {
        Some(x) => x@,
        None => match b {
            Some(y) => y@,
            None => fallback,
        },
    }
}

/// `auto: {project} from {source} ({file})`, where the project is the export's
/// project name, else the watch's, else its id; the source is the exporting
/// application, else the header description, else `IFC export`.
pub open spec fn spec_commit_message(entry: WatchEntry, intake: IfcIntake, changed: Seq<char>) -> Seq<char> {
    "auto: "@ + first_some(intake.project_name, entry.project_name, entry.project_id@) + " from "@
        + first_some(intake.originating_system, intake.description, "IFC export"@) + " ("@
        + spec_file_label(changed) + ")"@
}

fn first_some_exec(a: &Option<String>, b: &Option<String>, fallback: &str) -> (r: Vec<char>)
    ensures
        r@ == first_some(*a, *b, fallback@),
{
    match a {
        Some(x) => chars_of(x.as_str()),
        None => match b {
            Some(y) => chars_of(y.as_str()),
            None => chars_of(fallback),
        },
    }
}

/// The commit message of an automatic import.
pub fn commit_message(entry: &WatchEntry, intake: &IfcIntake, changed: &str) -> (r: String)
    ensures
        r@ == spec_commit_message(*entry, *intake, changed@),
{
    let project = first_some_exec(&intake.project_name, &entry.project_name, entry.project_id.as_str());
    let source = first_some_exec(&intake.originating_system, &intake.description, "IFC export");
    let file = file_label(changed);
    let mut out = cat(&chars_of("auto: "), &project);
    out = cat(&out, &chars_of(" from "));
    out = cat(&out, &source);
    out = cat(&out, &chars_of(" ("));
    out = cat(&out, &chars_of(file.as_str()));
    out = cat(&out, &chars_of(")"));
    string_of(&out)
}

/// The author recorded on an automatic commit: the export's author, else the
/// configured default name, with the configured email or `user@vex`; none
/// when neither name is known.
pub open spec fn spec_author_identity(
    intake: IfcIntake,
    default_name: Option<Seq<char>>,
    default_email: Option<Seq<char>>,
) -> Option<(Seq<char>, Seq<char>)> {
    let name = match intake.author {
        Some(a) => Some(a@),
        None => default_name,
    };
    match name {
        None => None,
        Some(n) => Some(
            (
                n,
                match default_email {
                    Some(e) => e,
                    None => "user@vex"@,
                },
            ),
        ),
    }
}

pub open spec fn opt_str_view(o: Option<&str>) -> Option<Seq<char>> {
    match o {
        Some(s) => Some(s@),
        None => None,
    }
}

/// The `(name, email)` pair an automatic commit is authored as.
pub fn author_identity(intake: &IfcIntake, default_name: Option<&str>, default_email: Option<&str>) -> (r: Option<(String, String)>)
    ensures
        match r {
            None => spec_author_identity(*intake, opt_str_view(default_name), opt_str_view(default_email)) is None,
            Some((n, e)) => spec_author_identity(*intake, opt_str_view(default_name), opt_str_view(default_email))
                == Some((n@, e@)),
        },
{
    let name = match &intake.author {
        Some(a) => a.clone(),
        None => match default_name {
            Some(n) => owned(n),
            None => return None,
        },
    };
    let email = match default_email {
        Some(e) => owned(e),
        None => owned("user@vex"),
    };
    Some((name, email))
}

// ---- remote, archive and scan order --------------------------------------------------

pub open spec fn after_scheme(api_base: Seq<char>) -> Option<Seq<char>> {
    if starts_with_seq(api_base, "https://"@) {
        Some(api_base.subrange(8, api_base.len() as int))
    } else if starts_with_seq(api_base, "http://"@) {
        Some(api_base.subrange(7, api_base.len() as int))
    } else {
        None
    }
}

/// The host of an `http(s)` base URL: up to the first `/`, then up to the first `:`.
pub open spec fn url_host(rest: Seq<char>) -> Seq<char> {
    crate::text::before_first(crate::text::before_first(rest, '/'), ':')
}

/// The host without its leftmost label when at least two labels remain after it.
pub open spec fn root_domain(host: Seq<char>) -> Seq<char> {
    match crate::text::first_index_of(host, '.') {
        Some(i) => {
            let rest = host.subrange(i + 1, host.len() as int);
            if rest.contains('.') {
                rest
            } else {
                host
            }
        },
        None => host,
    }
}

/// The SSH push URL for a project on the hosted remote of `api_base`:
/// `ssh://vex@vex.<root-domain>:22/proj/<project_id>`; none unless the base is
/// an `http`/`https` URL with a host.
pub open spec fn spec_derive_remote_url(api_base: Seq<char>, project_id: Seq<char>) -> Option<Seq<char>> {
    match after_scheme(api_base) {
        None => None,
        Some(rest) => {
            let host = url_host(rest);
            if host.len() == 0 {
                None
            } else {
                Some("ssh://vex@vex."@ + root_domain(host) + ":22/proj/"@ + project_id)
            }
        },
    }
}

/// The remote a freshly initialised repository pushes to.
pub fn derive_remote_url(api_base: &str, project_id: &str) -> (r: Option<String>)
    ensures
        opt_string_view(r) == spec_derive_remote_url(api_base@, project_id@),
{
    let a = chars_of(api_base);
    let rest = match strip_prefix_vec(&a, &chars_of("https://")) {
        Some(r) => r,
        None => match strip_prefix_vec(&a, &chars_of("http://")) {
            Some(r) => r,
            None => return None,
        },
    };
    proof {
        reveal_strlit("https://");
        reveal_strlit("http://");
    }
    let host = crate::text::before_first_vec(&crate::text::before_first_vec(&rest, '/'), ':');
    if host.len() == 0 {
        return None;
    }
    let root = match crate::text::find_char(&host, '.') {
        Some(i) => {
            let tail = slice_vec(&host, i + 1, host.len());
            match crate::text::find_char(&tail, '.') {
                Some(_) => {
                    proof {
                        crate::text::lemma_first_index_of(tail@, '.');
                        let k = crate::text::first_index_of(tail@, '.')->0;
                        assert(tail@[k] == '.');
                    }
                    tail
                },
                None => {
                    proof {
                        crate::text::lemma_first_index_of(tail@, '.');
                    }
                    host
                },
            }
        },
        None => host,
    };
    let mut out = cat(&chars_of("ssh://vex@vex."), &root);
    out = cat(&out, &chars_of(":22/proj/"));
    out = cat(&out, &chars_of(project_id));
    Some(string_of(&out))
}

pub open spec fn is_ascii_text(s: Seq<char>) -> bool {
    forall|i: int| 0 <= i < s.len() ==> (#[trigger] s[i] as u32) < 128
}

pub open spec fn short_hash(h: Seq<char>) -> Seq<char> {
    if h.len() <= 12 {
        h
    } else {
        h.subrange(0, 12)
    }
}

/// The archived name of a processed export: `{stem}-{hash12}.{ext}` on the
/// first attempt and `{stem}-{hash12}-{n}.{ext}` on attempt `n`, where the
/// stem defaults to `model`, the extension to `ifc`, and `hash12` is the
/// first twelve characters of the content hash.
pub open spec fn spec_archive_file_name(file: Seq<char>, content_hash: Seq<char>, attempt: nat) -> Seq<char> {
    let stem = match file_stem(file) {
        Some(s) => s,
        None => "model"@,
    };
    let ext = match extension(file) {
        Some(e) => e,
        None => "ifc"@,
    };
    stem + "-"@ + short_hash(content_hash) + if attempt == 0 {
        Seq::<char>::empty()
    } else {
        "-"@ + dec(attempt)
    } + "."@ + ext
}

/// The file name a processed export is archived under, for one attempt.
pub fn archive_file_name(file: &str, content_hash: &str, attempt: u32) -> (r: String)
    requires
        is_ascii_text(content_hash@),
    ensures
        r@ == spec_archive_file_name(file@, content_hash@, attempt as nat),
{
    let stem = match path_file_stem(file) {
        Some(s) => chars_of(s.as_str()),
        None => chars_of("model"),
    };
    let ext = match path_extension(file) {
        Some(e) => chars_of(e.as_str()),
        None => chars_of("ifc"),
    };
    let h = chars_of(content_hash);
    let short = if h.len() <= 12 {
        h
    } else {
        slice_vec(&h, 0, 12)
    };
    let mut out = cat(&stem, &chars_of("-"));
    out = cat(&out, &short);
    if attempt != 0 {
        out = cat(&out, &chars_of("-"));
        out = cat(&out, &crate::text::dec_chars(attempt as u64));
    }
    out = cat(&out, &chars_of("."));
    out = cat(&out, &ext);
    proof {
        if attempt == 0 {
            assert(out@ =~= stem@ + "-"@ + short@ + Seq::<char>::empty() + "."@ + ext@);
        }
    }
    string_of(&out)
}

/// `b` holds a latest modification time, and no earlier index holds one as late.
pub open spec fn is_latest(times: Seq<i128>, b: int) -> bool {
    &&& 0 <= b < times.len()
    &&& forall|j: int| 0 <= j < times.len() ==> times[j] <= times[b]
    &&& forall|j: int| 0 <= j < b ==> times[j] < times[b]
}

/// The export to push manually: the first of those modified last.
pub fn latest_by_modified(times: &Vec<i128>) -> (r: Option<usize>)
    ensures
        match r {
            None => times.len() == 0,
            Some(b) => is_latest(times@, b as int),
        },
{
    if times.len() == 0 {
        return None;
    }
    let mut best: usize = 0;
    let mut i: usize = 1;
    while i < times.len()
        invariant
            1 <= i <= times.len(),
            best < i,
            forall|j: int| 0 <= j < i ==> times@[j] <= times@[best as int],
            forall|j: int| 0 <= j < best ==> times@[j] < times@[best as int],
        decreases times.len() - i,
    {
        if times[i] > times[best] {
            best = i;
        }
        i = i + 1;
    }
    Some(best)
}

/// `order` lists every index of `times` once, by modification time, ties in index order.
pub open spec fn is_modified_order(times: Seq<i128>, order: Seq<usize>) -> bool {
    &&& order.len() == times.len()
    &&& forall|k: int| 0 <= k < order.len() ==> (#[trigger] order[k]) < times.len()
    &&& forall|k: int, l: int| 0 <= k < l < order.len() ==> (#[trigger] order[k]) != (#[trigger] order[l])
    &&& forall|k: int, l: int|
        0 <= k < l < order.len() ==> times[#[trigger] order[k] as int] < times[#[trigger] order[l] as int] || (
        times[order[k] as int] == times[order[l] as int] && order[k] < order[l])
}

/// The order in which an inbox scan processes existing exports: oldest first,
/// keeping directory order among equal times.
pub fn order_by_modified(times: &Vec<i128>) -> (order: Vec<usize>)
    ensures
        is_modified_order(times@, order@),
{
    let mut order: Vec<usize> = Vec::new();
    let mut i: usize = 0;
    while i < times.len()
        invariant
            i <= times.len(),
            order.len() == i,
            forall|k: int| 0 <= k < order@.len() ==> (#[trigger] order@[k]) < i,
            forall|k: int, l: int| 0 <= k < l < order@.len() ==> (#[trigger] order@[k]) != (#[trigger] order@[l]),
            forall|k: int, l: int|
                0 <= k < l < order@.len() ==> times@[#[trigger] order@[k] as int] < times@[#[trigger] order@[l] as int] || (
                times@[order@[k] as int] == times@[order@[l] as int] && order@[k] < order@[l]),
        decreases times.len() - i,
    {
        let mut pos: usize = 0;
        while pos < order.len() && times[order[pos]] <= times[i]
            invariant
                pos <= order@.len(),
                i < times.len(),
                forall|k: int| 0 <= k < order@.len() ==> (#[trigger] order@[k]) < i,
                forall|k: int| 0 <= k < pos ==> times@[#[trigger] order@[k] as int] <= times@[i as int],
            decreases order.len() - pos,
        {
            pos = pos + 1;
        }
        let ghost o = order@;
        proof {
            assert forall|k: int| pos <= k < o.len() implies times@[#[trigger] o[k] as int] > times@[i as int] by {
                assert(times@[o[pos as int] as int] > times@[i as int]);
                if k > pos {
                    assert(times@[o[pos as int] as int] < times@[o[k] as int] || times@[o[pos as int] as int]
                        == times@[o[k] as int]);
                }
            }
        }
        order.insert(pos, i);
        proof {
            let n = order@;
            assert(n == o.insert(pos as int, i));
            assert forall|k: int| 0 <= k < n.len() implies (#[trigger] n[k]) < i + 1 by {
                if k < pos {
                    assert(n[k] == o[k]);
                } else if k > pos {
                    assert(n[k] == o[k - 1]);
                }
            }
            assert forall|k: int, l: int| 0 <= k < l < n.len() implies (#[trigger] n[k]) != (#[trigger] n[l]) by {
                if k < pos && l < pos {
                    assert(n[k] == o[k] && n[l] == o[l]);
                } else if k < pos && l == pos {
                    assert(n[k] == o[k]);
                } else if k < pos && l > pos {
                    assert(n[k] == o[k] && n[l] == o[l - 1]);
                } else if k == pos {
                    assert(n[l] == o[l - 1]);
                } else {
                    assert(n[k] == o[k - 1] && n[l] == o[l - 1]);
                }
            }
            assert forall|k: int, l: int| 0 <= k < l < n.len() implies times@[#[trigger] n[k] as int] < times@[
                #[trigger] n[l] as int] || (times@[n[k] as int] == times@[n[l] as int] && n[k] < n[l]) by {
                if k < pos && l < pos {
                    assert(n[k] == o[k] && n[l] == o[l]);
                } else if k < pos && l == pos {
                    assert(n[k] == o[k]);
                } else if k < pos && l > pos {
                    assert(n[k] == o[k] && n[l] == o[l - 1]);
                } else if k == pos {
                    assert(n[l] == o[l - 1]);
                } else {
                    assert(n[k] == o[k - 1] && n[l] == o[l - 1]);
                }
            }
        }
        i = i + 1;
    }
    order
}

// ---- activity events -----------------------------------------------------------------

/// What a pipeline step reports about one export.
#[derive(Debug, Clone, PartialEq, Eq)]
pub struct ActivityDetails {
    pub kind: ActivityKind,
    pub commit_hash: Option<String>,
    pub content_hash: Option<String>,
    pub message: String,
    pub detail: Option<String>,
}

/// The variant name of an activity kind, as `{:?}` prints it.
pub open spec fn kind_debug_name(kind: ActivityKind) -> Seq<char> {
    match kind {
        ActivityKind::ProcessingStarted => "ProcessingStarted"@,
        ActivityKind::CommitCreated => "CommitCreated"@,
        ActivityKind::DuplicateSkipped => "DuplicateSkipped"@,
        ActivityKind::RouteSkipped => "RouteSkipped"@,
        ActivityKind::NoChanges => "NoChanges"@,
        ActivityKind::PushQueued => "PushQueued"@,
        ActivityKind::PushSynced => "PushSynced"@,
        ActivityKind::Error => "Error"@,
    }
}

fn kind_debug(kind: ActivityKind) -> (r: &'static str)
    ensures
        r@ == kind_debug_name(kind),
{
    match kind {
        ActivityKind::ProcessingStarted => "ProcessingStarted",
        ActivityKind::CommitCreated => "CommitCreated",
        ActivityKind::DuplicateSkipped => "DuplicateSkipped",
        ActivityKind::RouteSkipped => "RouteSkipped",
        ActivityKind::NoChanges => "NoChanges",
        ActivityKind::PushQueued => "PushQueued",
        ActivityKind::PushSynced => "PushSynced",
        ActivityKind::Error => "Error",
    }
}

pub open spec fn or_empty_text(o: Option<String>) -> Seq<char> {
    match o {
        Some(s) => s@,
        None => Seq::empty(),
    }
}

/// `{event_nanos}:{project_id}:{kind:?}:{source path}:{commit hash or empty}`.
pub open spec fn event_id_material(entry: WatchEntry, changed: Seq<char>, d: ActivityDetails, event_nanos: nat) -> Seq<char> {
    dec(event_nanos) + ":"@ + entry.project_id@ + ":"@ + kind_debug_name(d.kind) + ":"@ + changed + ":"@
        + or_empty_text(d.commit_hash)
}

/// `{caught_at_unix}-{first 12 hex digits of the BLAKE3 digest of the material}`.
pub open spec fn event_id(entry: WatchEntry, changed: Seq<char>, d: ActivityDetails, caught_at_unix: int, event_nanos: nat) -> Seq<char> {
    fmt_int(caught_at_unix) + "-"@ + blake3_hex_digest(
        encode_utf8(event_id_material(entry, changed, d, event_nanos)),
    ).subrange(0, 12)
}

/// The activity event a step's details describe, for a watch, its folder and the export.
pub open spec fn spec_activity_event(
    entry: WatchEntry,
    dir: Seq<char>,
    changed: Seq<char>,
    d: ActivityDetails,
    caught_at_unix: int,
    event_nanos: nat,
    ev: ActivityEvent,
) -> bool {
    &&& ev.id@ == event_id(entry, changed, d, caught_at_unix, event_nanos)
    &&& ev.kind == d.kind
    &&& ev.project_id@ == entry.project_id@
    &&& opt_view(ev.project_name) == opt_view(entry.project_name)
    &&& opt_view(ev.local_path) == Some(dir)
    &&& opt_view(ev.source_path) == Some(changed)
    &&& opt_view(ev.commit_hash) == opt_view(d.commit_hash)
    &&& opt_view(ev.content_hash) == opt_view(d.content_hash)
    &&& ev.message@ == d.message@
    &&& opt_view(ev.detail) == opt_view(d.detail)
    &&& ev.caught_at_unix == caught_at_unix
}

fn clone_opt(o: &Option<String>) -> (r: Option<String>)
    ensures
        opt_view(r) == opt_view(*o),
{
    match o {
        Some(s) => Some(s.clone()),
        None => None,
    }
}

/// The event recorded for a step; its id mixes the event time with what happened.
pub fn activity_event(
    entry: &WatchEntry,
    dir: &str,
    changed: &str,
    details: ActivityDetails,
    caught_at_unix: i64,
    event_nanos: u128,
) -> (ev: ActivityEvent)
    ensures
        spec_activity_event(*entry, dir@, changed@, details, caught_at_unix as int, event_nanos as nat, ev),
{
    let colon = chars_of(":");
    let mut material = cat(&dec_chars_u128(event_nanos), &colon);
    material = cat(&material, &chars_of(entry.project_id.as_str()));
    material = cat(&material, &colon);
    material = cat(&material, &chars_of(kind_debug(details.kind)));
    material = cat(&material, &colon);
    material = cat(&material, &chars_of(changed));
    material = cat(&material, &colon);
    let commit_text = match &details.commit_hash {
        Some(c) => chars_of(c.as_str()),
        None => Vec::new(),
    };
    material = cat(&material, &commit_text);
    let material_text = string_of(&material);
    let digest = chars_of(blake3_hex(material_text.as_str().as_bytes()).as_str());
    let mut id = cat(&fmt_i64_padded(caught_at_unix, 0), &chars_of("-"));
    id = cat(&id, &slice_vec(&digest, 0, 12));
    proof {
        assert(material@ == event_id_material(*entry, changed@, details, event_nanos as nat));
    }
    ActivityEvent {
        id: string_of(&id),
        kind: details.kind,
        project_id: entry.project_id.clone(),
        project_name: clone_opt(&entry.project_name),
        local_path: Some(owned(dir)),
        source_path: Some(owned(changed)),
        commit_hash: details.commit_hash,
        content_hash: details.content_hash,
        message: details.message,
        detail: details.detail,
        caught_at_unix,
    }
}

/// The text `{:?}` gives for an optional string (`None`, or `Some("…")` with escapes).
pub uninterp spec fn option_debug_text(o: Option<Seq<char>>) -> Seq<char>;

/// Formats an optional string with `{:?}` (std's `Debug` for `Option<String>`).
/// The result depends on the value alone; for `None` it is the text `None`.
#[verifier::external_body]
fn option_debug(o: &Option<String>) -> (r: String)
    ensures
        r@ == option_debug_text(opt_view(*o)),
        o is None ==> r@ == "None"@,
{
    format!("{:?}", o)
}

// ---- the run of one export -------------------------------------------------------------

/// `p` occurs somewhere in `t`.
pub open spec fn contains_text(t: Seq<char>, p: Seq<char>) -> bool {
    exists|i: int| occurs_at(t, p, i)
}

fn contains_exec(t: &Vec<char>, p: &Vec<char>) -> (r: bool)
    ensures
        r == contains_text(t@, p@),
{
    let mut i: usize = 0;
    while i < t.len()
        invariant
            i <= t.len(),
            forall|j: int| 0 <= j < i ==> !occurs_at(t@, p@, j),
        decreases t.len() - i,
    {
        if occurs_at_exec(t, p, i) {
            return true;
        }
        i = i + 1;
    }
    if occurs_at_exec(t, p, t.len()) {
        return true;
    }
    proof {
        assert forall|j: int| !occurs_at(t@, p@, j) by {
            if 0 <= j < t.len() {
            } else if j != t.len() {
            }
        }
    }
    false
}

/// A commit failure that only means there was nothing new to record.
pub open spec fn is_nothing_to_commit(message: Seq<char>) -> bool {
    contains_text(message, "nothing to commit"@) || contains_text(message, "no changes"@)
}

/// Whether an engine commit failure only says that nothing changed.
pub fn nothing_to_commit(message: &str) -> (r: bool)
    ensures
        r == is_nothing_to_commit(message@),
{
    let m = chars_of(message);
    contains_exec(&m, &chars_of("nothing to commit")) || contains_exec(&m, &chars_of("no changes"))
}

/// Where a pipeline run stands.
#[derive(Debug, Clone, Copy, PartialEq, Eq)]
pub enum PipelineStage {
    Stabilizing,
    AnnouncingStart,
    Hashing,
    CheckingSeen,
    AnnouncingDuplicate,
    EnsuringRepoForDuplicate,
    ArchivingDuplicate,
    ParsingIntake,
    AnnouncingRouteSkip,
    EnsuringRepo,
    Importing,
    Committing,
    AnnouncingNoChanges,
    Pushing,
    Archiving,
    Persisting,
    AnnouncingError,
    Finished,
}

/// What the daemon must do next for a run.
#[derive(Debug, Clone, PartialEq, Eq)]
pub enum PipelineAction {
    /// Wait until the export's size and modification time stop changing.
    WaitForStableFile,
    /// Record an activity event (see [`activity_event`]).
    Record(ActivityDetails),
    /// Hash the export's bytes (see [`crate::ifc::content_hash`]).
    HashFile,
    /// Ask the daemon state whether this content hash was imported before.
    CheckSeen(String),
    /// Make the watch folder a repository with its remote registered.
    EnsureRepo,
    /// Move the export into the archive, named by [`archive_file_name`].
    Archive(String),
    /// Read the export's header metadata.
    ParseIntake,
    /// Import the export into the repository.
    Import,
    /// Commit with this message and optional `(name, email)` author.
    Commit(String, Option<(String, String)>),
    /// Push `refs/heads/main` to `origin`.
    Push,
    /// Remember the hash and snapshot, record the commit event and save the state.
    Persist {
        content_hash: String,
        commit_hash: String,
        project_guid: Option<String>,
        snapshot_path: String,
        details: ActivityDetails,
    },
    /// The run is over, with its failure if it failed.
    Finish(Option<BridgeError>),
}

/// The outcome of the action the daemon last carried out.
#[derive(Debug, Clone, PartialEq, Eq)]
pub enum PipelineEvent {
    Done,
    Failed(BridgeError),
    Hashed(String),
    Seen(bool),
    Intake(IfcIntake),
    Committed(String),
    Archived(String),
}

/// One run of the pipeline for a settled export.
#[derive(Debug, Clone, PartialEq, Eq)]
pub struct PipelineRun {
    pub entry: WatchEntry,
    pub dir: String,
    pub changed: String,
    pub author_name: Option<String>,
    pub author_email: Option<String>,
    pub stage: PipelineStage,
    pub content_hash: String,
    pub intake: Option<IfcIntake>,
    pub message: String,
    pub commit_hash: String,
    pub push_detail: String,
    pub failure: Option<BridgeError>,
}

/// What the stages past routing and the error report rely on.
pub open spec fn pipeline_wf(r: PipelineRun) -> bool {
    &&& (r.stage == PipelineStage::EnsuringRepo || r.stage == PipelineStage::Importing || r.stage
        == PipelineStage::Committing || r.stage == PipelineStage::Pushing || r.stage == PipelineStage::Archiving
        || r.stage == PipelineStage::Persisting) ==> r.intake is Some
    &&& r.stage == PipelineStage::AnnouncingError ==> r.failure is Some
}

/// The events a stage waits for.
pub open spec fn accepts_event(stage: PipelineStage, e: PipelineEvent) -> bool {
    match stage {
        PipelineStage::AnnouncingStart | PipelineStage::AnnouncingDuplicate | PipelineStage::AnnouncingRouteSkip
        | PipelineStage::AnnouncingNoChanges | PipelineStage::AnnouncingError => e is Done,
        PipelineStage::Stabilizing | PipelineStage::EnsuringRepoForDuplicate | PipelineStage::EnsuringRepo
        | PipelineStage::Importing | PipelineStage::Pushing | PipelineStage::Persisting => e is Done || e is Failed,
        PipelineStage::Hashing => e is Hashed || e is Failed,
        PipelineStage::CheckingSeen => e is Seen || e is Failed,
        PipelineStage::ParsingIntake => e is Intake || e is Failed,
        PipelineStage::Committing => e is Committed || e is Failed,
        PipelineStage::Archiving | PipelineStage::ArchivingDuplicate => e is Archived || e is Failed,
        PipelineStage::Finished => false,
    }
}

/// The action records an event of this kind, hashes, message and detail.
pub open spec fn records(
    a: PipelineAction,
    kind: ActivityKind,
    commit_hash: Option<Seq<char>>,
    content_hash: Option<Seq<char>>,
    message: Seq<char>,
    detail: Option<Seq<char>>,
) -> bool {
    a matches PipelineAction::Record(d) && d.kind == kind && opt_view(d.commit_hash) == commit_hash
        && opt_view(d.content_hash) == content_hash && d.message@ == message && opt_view(d.detail) == detail
}

/// Everything but the stage and what the run has learnt stays as it was.
pub open spec fn same_job(a: PipelineRun, b: PipelineRun) -> bool {
    &&& a.entry == b.entry
    &&& a.dir == b.dir
    &&& a.changed == b.changed
    &&& a.author_name == b.author_name
    &&& a.author_email == b.author_email
}

/// The run goes on to report `e` as its failure.
pub open spec fn fails_with(r: PipelineRun, e: BridgeError, n: PipelineRun, a: PipelineAction) -> bool {
    &&& n.stage == PipelineStage::AnnouncingError
    &&& n.failure == Some(e)
    &&& records(a, ActivityKind::Error, None, None, "Could not process "@ + spec_file_label(r.changed@), Some(spec_error_message(e)))
}

pub open spec fn finishes_ok(n: PipelineRun, a: PipelineAction) -> bool {
    n.stage == PipelineStage::Finished && a == PipelineAction::Finish(None)
}

/// The commit details recorded once an export is committed.
pub open spec fn persists(r: PipelineRun, snapshot: Seq<char>, a: PipelineAction) -> bool {
    match a {
        PipelineAction::Persist { content_hash, commit_hash, project_guid, snapshot_path, details } => {
            &&& content_hash@ == r.content_hash@
            &&& commit_hash@ == r.commit_hash@
            &&& opt_view(project_guid) == (match r.intake {
                Some(i) => opt_view(i.project_guid),
                None => None,
            })
            &&& snapshot_path@ == snapshot
            &&& details.kind == ActivityKind::CommitCreated
            &&& opt_view(details.commit_hash) == Some(r.commit_hash@)
            &&& opt_view(details.content_hash) == Some(r.content_hash@)
            &&& details.message@ == r.message@
            &&& opt_view(details.detail) == Some(r.push_detail@)
        },
        _ => false,
    }
}

/// One transition of a run: from `r`, on `e`, to `n` with action `a`.
pub open spec fn pipeline_next(r: PipelineRun, e: PipelineEvent, n: PipelineRun, a: PipelineAction) -> bool {
    let label = spec_file_label(r.changed@);
    &&& same_job(r, n)
    &&& match (r.stage, e) {
        (_, PipelineEvent::Failed(err)) if r.stage == PipelineStage::Stabilizing || r.stage == PipelineStage::Hashing
            || r.stage == PipelineStage::CheckingSeen || r.stage == PipelineStage::EnsuringRepoForDuplicate
            || r.stage == PipelineStage::ParsingIntake || r.stage == PipelineStage::EnsuringRepo
            || r.stage == PipelineStage::Importing || r.stage == PipelineStage::Persisting
            || (r.stage == PipelineStage::Committing && !is_nothing_to_commit(spec_error_message(err))) => fails_with(
            r,
            err,
            n,
            a,
        ),
        (PipelineStage::Stabilizing, _) => n.stage == PipelineStage::AnnouncingStart && records(
            a,
            ActivityKind::ProcessingStarted,
            None,
            None,
            "Processing "@ + label,
            None,
        ),
        (PipelineStage::AnnouncingStart, _) => n.stage == PipelineStage::Hashing && a == PipelineAction::HashFile,
        (PipelineStage::Hashing, PipelineEvent::Hashed(h)) => n.stage == PipelineStage::CheckingSeen && n.content_hash
            == h && a == PipelineAction::CheckSeen(h),
        (PipelineStage::CheckingSeen, PipelineEvent::Seen(seen)) => n.content_hash == r.content_hash && if seen {
            n.stage == PipelineStage::AnnouncingDuplicate && records(
                a,
                ActivityKind::DuplicateSkipped,
                None,
                Some(r.content_hash@),
                "Skipped duplicate "@ + label,
                None,
            )
        } else {
            n.stage == PipelineStage::ParsingIntake && a == PipelineAction::ParseIntake
        },
        (PipelineStage::AnnouncingDuplicate, _) => n.stage == PipelineStage::EnsuringRepoForDuplicate && n.content_hash
            == r.content_hash && a == PipelineAction::EnsureRepo,
        (PipelineStage::EnsuringRepoForDuplicate, _) => n.stage == PipelineStage::ArchivingDuplicate && a
            == PipelineAction::Archive(r.content_hash),
        (PipelineStage::ArchivingDuplicate, _) => finishes_ok(n, a),
        (PipelineStage::ParsingIntake, PipelineEvent::Intake(i)) => n.content_hash == r.content_hash && if spec_entry_matches_ifc(
            r.entry,
            i,
        ) {
            n.stage == PipelineStage::EnsuringRepo && n.intake == Some(i) && a == PipelineAction::EnsureRepo
        } else {
            n.stage == PipelineStage::AnnouncingRouteSkip && records(
                a,
                ActivityKind::RouteSkipped,
                None,
                Some(r.content_hash@),
                "Skipped unmatched IFC "@ + label,
                Some(
                    "expected "@ + option_debug_text(opt_view(r.entry.ifc_project_guid)) + ", actual "@
                        + option_debug_text(spec_routing_key(i)),
                ),
            )
        },
        (PipelineStage::AnnouncingRouteSkip, _) => finishes_ok(n, a),
        (PipelineStage::EnsuringRepo, _) => n.stage == PipelineStage::Importing && n.content_hash == r.content_hash
            && n.intake == r.intake && a == PipelineAction::Import,
        (PipelineStage::Importing, _) => r.intake matches Some(i) && n.stage == PipelineStage::Committing
            && n.content_hash == r.content_hash && n.intake == r.intake && n.message@ == spec_commit_message(
            r.entry,
            i,
            r.changed@,
        ) && match a {
            PipelineAction::Commit(m, author) => m@ == n.message@ && match author {
                None => spec_author_identity(i, opt_view(r.author_name), opt_view(r.author_email)) is None,
                Some((an, ae)) => spec_author_identity(i, opt_view(r.author_name), opt_view(r.author_email)) == Some(
                    (an@, ae@),
                ),
            },
            _ => false,
        },
        (PipelineStage::Committing, PipelineEvent::Committed(c)) => n.stage == PipelineStage::Pushing
            && n.content_hash == r.content_hash && n.intake == r.intake && n.message == r.message && n.commit_hash
            == c && a == PipelineAction::Push,
        (PipelineStage::Committing, _) => n.stage == PipelineStage::AnnouncingNoChanges && records(
            a,
            ActivityKind::NoChanges,
            None,
            Some(r.content_hash@),
            "No changes in "@ + label,
            None,
        ),
        (PipelineStage::AnnouncingNoChanges, _) => finishes_ok(n, a),
        (PipelineStage::Pushing, _) => n.stage == PipelineStage::Archiving && n.content_hash == r.content_hash
            && n.intake == r.intake && n.message == r.message && n.commit_hash == r.commit_hash && n.push_detail@
            == (match e {
            PipelineEvent::Failed(err) => "committed locally; sync failed: "@ + spec_error_message(err),
            _ => "pushed "@ + r.commit_hash@,
        }) && a == PipelineAction::Archive(r.content_hash),
        (PipelineStage::Archiving, _) => n.stage == PipelineStage::Persisting && persists(
            r,
            match e {
                PipelineEvent::Archived(path) => path@,
                _ => r.changed@,
            },
            a,
        ),
        (PipelineStage::Persisting, _) => finishes_ok(n, a),
        (PipelineStage::AnnouncingError, _) => n.stage == PipelineStage::Finished && (r.failure matches Some(err)
            && a == PipelineAction::Finish(Some(err))),
        _ => false,
    }
}

/// The stages a run passes through once it knows its export was imported before.
pub open spec fn on_duplicate_path(s: PipelineStage) -> bool {
    s == PipelineStage::AnnouncingDuplicate || s == PipelineStage::EnsuringRepoForDuplicate || s
        == PipelineStage::ArchivingDuplicate
}

/// Actions that change the repository's history or the record of imports.
pub open spec fn imports_or_publishes(a: PipelineAction) -> bool {
    a is Import || a is Commit || a is Push || a is Persist
}

/// An export whose content was seen before is never imported again: from the
/// moment the run learns it is a duplicate, every step stays on the duplicate
/// path, reports a failure or ends, and none imports, commits, pushes or
/// records a commit.
pub proof fn law_duplicate_is_never_imported(r: PipelineRun, e: PipelineEvent, n: PipelineRun, a: PipelineAction)
    requires
        accepts_event(r.stage, e),
        pipeline_next(r, e, n, a),
        on_duplicate_path(r.stage) || r.stage == PipelineStage::AnnouncingError || (r.stage
            == PipelineStage::CheckingSeen && e == PipelineEvent::Seen(true)),
    ensures
        !imports_or_publishes(a),
        on_duplicate_path(n.stage) || n.stage == PipelineStage::AnnouncingError || n.stage == PipelineStage::Finished,
{
}

fn text_of(parts: &Vec<char>) -> (r: String)
    ensures
        r@ == parts@,
{
    string_of(parts)
}

fn joined(a: &str, b: &str) -> (r: String)
    ensures
        r@ == a@ + b@,
{
    text_of(&cat(&chars_of(a), &chars_of(b)))
}

fn details(
    kind: ActivityKind,
    commit_hash: Option<String>,
    content_hash: Option<String>,
    message: String,
    detail: Option<String>,
) -> (d: ActivityDetails)
    ensures
        d.kind == kind,
        d.commit_hash == commit_hash,
        d.content_hash == content_hash,
        d.message == message,
        d.detail == detail,
{
    ActivityDetails { kind, commit_hash, content_hash, message, detail }
}

impl PipelineRun {
    /// A run for the export `changed` in the watch folder `dir`; it begins by
    /// waiting for the file to settle.
    pub fn start(
        entry: WatchEntry,
        dir: String,
        changed: String,
        author_name: Option<String>,
        author_email: Option<String>,
    ) -> (r: (PipelineRun, PipelineAction))
        ensures
            r.0.entry == entry,
            r.0.dir == dir,
            r.0.changed == changed,
            r.0.author_name == author_name,
            r.0.author_email == author_email,
            r.0.stage == PipelineStage::Stabilizing,
            r.0.intake is None,
            r.0.failure is None,
            pipeline_wf(r.0),
            r.1 == PipelineAction::WaitForStableFile,
    {
        (
            PipelineRun {
                entry,
                dir,
                changed,
                author_name,
                author_email,
                stage: PipelineStage::Stabilizing,
                content_hash: String::new(),
                intake: None,
                message: String::new(),
                commit_hash: String::new(),
                push_detail: String::new(),
                failure: None,
            },
            PipelineAction::WaitForStableFile,
        )
    }

    /// Whether the run is waiting for an event of this shape.
    pub fn accepts(&self, e: &PipelineEvent) -> (r: bool)
        ensures
            r == accepts_event(self.stage, *e),
    {
        match self.stage {
            PipelineStage::AnnouncingStart | PipelineStage::AnnouncingDuplicate | PipelineStage::AnnouncingRouteSkip
            | PipelineStage::AnnouncingNoChanges | PipelineStage::AnnouncingError => matches!(e, PipelineEvent::Done),
            PipelineStage::Stabilizing | PipelineStage::EnsuringRepoForDuplicate | PipelineStage::EnsuringRepo
            | PipelineStage::Importing | PipelineStage::Pushing | PipelineStage::Persisting => matches!(e, PipelineEvent::Done | PipelineEvent::Failed(_)),
            PipelineStage::Hashing => matches!(e, PipelineEvent::Hashed(_) | PipelineEvent::Failed(_)),
            PipelineStage::CheckingSeen => matches!(e, PipelineEvent::Seen(_) | PipelineEvent::Failed(_)),
            PipelineStage::ParsingIntake => matches!(e, PipelineEvent::Intake(_) | PipelineEvent::Failed(_)),
            PipelineStage::Committing => matches!(e, PipelineEvent::Committed(_) | PipelineEvent::Failed(_)),
            PipelineStage::Archiving | PipelineStage::ArchivingDuplicate => matches!(e, PipelineEvent::Archived(_) | PipelineEvent::Failed(_)),
            PipelineStage::Finished => false,
        }
    }

    fn fail(self, err: BridgeError) -> (r: (PipelineRun, PipelineAction))
        ensures
            same_job(self, r.0),
            fails_with(self, err, r.0, r.1),
            pipeline_wf(r.0),
    {
        let label = file_label(self.changed.as_str());
        let message = joined("Could not process ", label.as_str());
        let detail = err.message();
        let mut next = self;
        next.stage = PipelineStage::AnnouncingError;
        next.failure = Some(err);
        (next, PipelineAction::Record(details(ActivityKind::Error, None, None, message, Some(detail))))
    }

    /// Advance the run by the outcome of its last action.
    pub fn step(self, e: PipelineEvent) -> (r: (PipelineRun, PipelineAction))
        requires
            pipeline_wf(self),
            accepts_event(self.stage, e),
        ensures
            pipeline_next(self, e, r.0, r.1),
            pipeline_wf(r.0),
    {
        let stage = self.stage;
        match e {
            PipelineEvent::Failed(err) => {
                match stage {
                    PipelineStage::Committing => {
                        if !nothing_to_commit(err.message().as_str()) {
                            return self.fail(err);
                        }
                    },
                    PipelineStage::Pushing | PipelineStage::Archiving | PipelineStage::ArchivingDuplicate => {},
                    _ => {
                        return self.fail(err);
                    },
                }
                self.step_failed_benign(err)
            },
            other => self.step_ok(other),
        }
    }

    fn step_failed_benign(self, err: BridgeError) -> (r: (PipelineRun, PipelineAction))
        requires
            pipeline_wf(self),
            self.stage == PipelineStage::Committing && is_nothing_to_commit(spec_error_message(err))
                || self.stage == PipelineStage::Pushing || self.stage == PipelineStage::Archiving
                || self.stage == PipelineStage::ArchivingDuplicate,
        ensures
            pipeline_next(self, PipelineEvent::Failed(err), r.0, r.1),
            pipeline_wf(r.0),
    {
        let label = file_label(self.changed.as_str());
        let mut next = self;
        match next.stage {
            PipelineStage::Committing => {
                next.stage = PipelineStage::AnnouncingNoChanges;
                let message = joined("No changes in ", label.as_str());
                let hash = next.content_hash.clone();
                (next, PipelineAction::Record(details(ActivityKind::NoChanges, None, Some(hash), message, None)))
            },
            PipelineStage::Pushing => {
                next.stage = PipelineStage::Archiving;
                next.push_detail = joined("committed locally; sync failed: ", err.message().as_str());
                let hash = next.content_hash.clone();
                (next, PipelineAction::Archive(hash))
            },
            PipelineStage::Archiving => {
                let snapshot = next.changed.clone();
                let action = next.persist_action(snapshot);
                next.stage = PipelineStage::Persisting;
                (next, action)
            },
            _ => {
                next.stage = PipelineStage::Finished;
                (next, PipelineAction::Finish(None))
            },
        }
    }

    fn persist_action(&self, snapshot: String) -> (a: PipelineAction)
        ensures
            persists(*self, snapshot@, a),
    {
        let guid = match &self.intake {
            Some(i) => clone_opt(&i.project_guid),
            None => None,
        };
        PipelineAction::Persist {
            content_hash: self.content_hash.clone(),
            commit_hash: self.commit_hash.clone(),
            project_guid: guid,
            snapshot_path: snapshot,
            details: details(
                ActivityKind::CommitCreated,
                Some(self.commit_hash.clone()),
                Some(self.content_hash.clone()),
                self.message.clone(),
                Some(self.push_detail.clone()),
            ),
        }
    }

    fn step_ok(self, e: PipelineEvent) -> (r: (PipelineRun, PipelineAction))
        requires
            pipeline_wf(self),
            accepts_event(self.stage, e),
            !(e is Failed),
        ensures
            pipeline_next(self, e, r.0, r.1),
            pipeline_wf(r.0),
    {
        let label = file_label(self.changed.as_str());
        let mut next = self;
        match next.stage {
            PipelineStage::Stabilizing => {
                next.stage = PipelineStage::AnnouncingStart;
                let message = joined("Processing ", label.as_str());
                (next, PipelineAction::Record(details(ActivityKind::ProcessingStarted, None, None, message, None)))
            },
            PipelineStage::AnnouncingStart => {
                next.stage = PipelineStage::Hashing;
                (next, PipelineAction::HashFile)
            },
            PipelineStage::Hashing => {
                match e {
                    PipelineEvent::Hashed(h) => {
                        next.stage = PipelineStage::CheckingSeen;
                        next.content_hash = h.clone();
                        (next, PipelineAction::CheckSeen(h))
                    },
                    _ => {
                        proof {
                            assert(false);
                        }
                        (next, PipelineAction::HashFile)
                    },
                }
            },
            PipelineStage::CheckingSeen => {
                let seen = match e {
                    PipelineEvent::Seen(b) => b,
                    _ => false,
                };
                if seen {
                    next.stage = PipelineStage::AnnouncingDuplicate;
                    let message = joined("Skipped duplicate ", label.as_str());
                    let hash = next.content_hash.clone();
                    (next, PipelineAction::Record(details(ActivityKind::DuplicateSkipped, None, Some(hash), message, None)))
                } else {
                    next.stage = PipelineStage::ParsingIntake;
                    (next, PipelineAction::ParseIntake)
                }
            },
            PipelineStage::AnnouncingDuplicate => {
                next.stage = PipelineStage::EnsuringRepoForDuplicate;
                (next, PipelineAction::EnsureRepo)
            },
            PipelineStage::EnsuringRepoForDuplicate => {
                next.stage = PipelineStage::ArchivingDuplicate;
                let hash = next.content_hash.clone();
                (next, PipelineAction::Archive(hash))
            },
            PipelineStage::ParsingIntake => {
                match e {
                    PipelineEvent::Intake(i) => {
                        if entry_matches_ifc(&next.entry, &i) {
                            next.stage = PipelineStage::EnsuringRepo;
                            next.intake = Some(i);
                            (next, PipelineAction::EnsureRepo)
                        } else {
                            next.stage = PipelineStage::AnnouncingRouteSkip;
                            let message = joined("Skipped unmatched IFC ", label.as_str());
                            let expected = option_debug(&next.entry.ifc_project_guid);
                            let actual = option_debug(&i.routing_key());
                            let mut d = cat(&chars_of("expected "), &chars_of(expected.as_str()));
                            d = cat(&d, &chars_of(", actual "));
                            d = cat(&d, &chars_of(actual.as_str()));
                            let hash = next.content_hash.clone();
                            (
                                next,
                                PipelineAction::Record(
                                    details(ActivityKind::RouteSkipped, None, Some(hash), message, Some(text_of(&d))),
                                ),
                            )
                        }
                    },
                    _ => {
                        proof {
                            assert(false);
                        }
                        (next, PipelineAction::ParseIntake)
                    },
                }
            },
            PipelineStage::EnsuringRepo => {
                next.stage = PipelineStage::Importing;
                (next, PipelineAction::Import)
            },
            PipelineStage::Importing => {
                match &next.intake {
                    Some(i) => {
                        let message = commit_message(&next.entry, i, next.changed.as_str());
                        let author = author_identity(
                            i,
                            match &next.author_name {
                                Some(n) => Some(n.as_str()),
                                None => None,
                            },
                            match &next.author_email {
                                Some(m) => Some(m.as_str()),
                                None => None,
                            },
                        );
                        next.stage = PipelineStage::Committing;
                        next.message = message.clone();
                        (next, PipelineAction::Commit(message, author))
                    },
                    None => {
                        proof {
                            assert(false);
                        }
                        (next, PipelineAction::Import)
                    },
                }
            },
            PipelineStage::Committing => {
                match e {
                    PipelineEvent::Committed(c) => {
                        next.stage = PipelineStage::Pushing;
                        next.commit_hash = c;
                        (next, PipelineAction::Push)
                    },
                    _ => {
                        proof {
                            assert(false);
                        }
                        (next, PipelineAction::Push)
                    },
                }
            },
            PipelineStage::Pushing => {
                next.stage = PipelineStage::Archiving;
                next.push_detail = joined("pushed ", next.commit_hash.as_str());
                let hash = next.content_hash.clone();
                (next, PipelineAction::Archive(hash))
            },
            PipelineStage::Archiving => {
                let snapshot = match e {
                    PipelineEvent::Archived(path) => path,
                    _ => next.changed.clone(),
                };
                let action = next.persist_action(snapshot);
                next.stage = PipelineStage::Persisting;
                (next, action)
            },
            PipelineStage::AnnouncingError => {
                next.stage = PipelineStage::Finished;
                let failure = next.failure;
                next.failure = None;
                (next, PipelineAction::Finish(failure))
            },
            _ => {
                next.stage = PipelineStage::Finished;
                (next, PipelineAction::Finish(None))
            },
        }
    }
}

// ---- manual pushes ------------------------------------------------------------------

/// The watch a manual push for `project_id` uses: the first with that id.
pub open spec fn is_first_watch(watch: Seq<WatchEntry>, project_id: Seq<char>, k: int) -> bool {
    &&& 0 <= k < watch.len()
    &&& watch[k].project_id@ == project_id
    &&& forall|j: int| 0 <= j < k ==> (#[trigger] watch[j]).project_id@ != project_id
}

pub open spec fn no_watch_message(project_id: Seq<char>) -> Seq<char> {
    "no [[watch]] entry registered for project_id `"@ + project_id
        + "`. Add one to config.toml or configure the project from the architur web UI before pushing."@
}

pub open spec fn no_export_message(dir: Seq<char>) -> Seq<char> {
    "no IFC file found under configured project directory `"@ + dir + "`"@
}

/// `manual push via vex-bridge ({file name, else the project id})`.
pub open spec fn manual_message(file: Seq<char>, project_id: Seq<char>) -> Seq<char> {
    "manual push via vex-bridge ("@ + (match file_name(file) {
        Some(n) => n,
        None => project_id,
    }) + ")"@
}

/// Where a manual push stands.
#[derive(Debug, Clone, Copy, PartialEq, Eq)]
pub enum ManualPushStage {
    PreparingDir,
    EnsuringRepo,
    FindingExport,
    Importing,
    Committing,
    ResolvingHead,
    Pushing,
    Finished,
}

/// What the daemon must do next for a manual push.
#[derive(Debug, Clone, PartialEq, Eq)]
pub enum ManualPushAction {
    /// Create the project folder if it is missing.
    EnsureDir(String),
    /// Make the folder a repository with its remote registered.
    EnsureRepo,
    /// Find the most recently modified export (see [`latest_by_modified`]).
    FindLatestExport,
    /// Import this export.
    Import(String),
    /// Commit with this message and optional `(name, email)` author.
    Commit(String, Option<(String, String)>),
    /// Report the hash of the repository's current HEAD commit.
    ResolveHead,
    /// Push this refspec to `origin`.
    Push(String),
    /// The push went through; this commit was pushed.
    Succeed(String),
    /// The push failed.
    Fail(BridgeError),
}

/// The outcome of the last manual-push action.
#[derive(Debug, Clone, PartialEq, Eq)]
pub enum ManualPushEvent {
    Done,
    Failed(BridgeError),
    /// The latest export, if the folder holds one.
    Latest(Option<String>),
    Committed(String),
    /// The hash of the current HEAD commit.
    Head(String),
}

/// A push requested by a desktop client rather than a file event.
#[derive(Debug, Clone, PartialEq, Eq)]
pub struct ManualPush {
    pub project_id: String,
    pub branch: String,
    pub dir: String,
    pub author: Option<(String, String)>,
    pub stage: ManualPushStage,
    pub file: String,
    pub commit_hash: String,
}

pub open spec fn manual_accepts(stage: ManualPushStage, e: ManualPushEvent) -> bool {
    match stage {
        ManualPushStage::PreparingDir | ManualPushStage::EnsuringRepo | ManualPushStage::Importing
        | ManualPushStage::Pushing => e is Done || e is Failed,
        ManualPushStage::FindingExport => e is Latest || e is Failed,
        ManualPushStage::Committing => e is Committed || e is Failed,
        ManualPushStage::ResolvingHead => e is Head || e is Failed,
        ManualPushStage::Finished => false,
    }
}

/// The author of a manual commit: the configured name and email, when both are set.
pub open spec fn manual_author(cfg: Config) -> Option<(Seq<char>, Seq<char>)> {
    match (cfg.default_author_name, cfg.default_author_email) {
        (Some(n), Some(e)) => Some((n@, e@)),
        _ => None,
    }
}

pub open spec fn author_view(a: Option<(String, String)>) -> Option<(Seq<char>, Seq<char>)> {
    match a {
        Some((n, e)) => Some((n@, e@)),
        None => None,
    }
}

pub open spec fn same_push(a: ManualPush, b: ManualPush) -> bool {
    a.project_id == b.project_id && a.branch == b.branch && a.dir == b.dir && a.author == b.author
}

/// One transition of a manual push.
pub open spec fn manual_next(r: ManualPush, e: ManualPushEvent, n: ManualPush, a: ManualPushAction) -> bool {
    &&& same_push(r, n)
    &&& match (r.stage, e) {
        (ManualPushStage::Committing, ManualPushEvent::Failed(err)) => if is_nothing_to_commit(spec_error_message(err)) {
            n.stage == ManualPushStage::ResolvingHead && a == ManualPushAction::ResolveHead
        } else {
            n.stage == ManualPushStage::Finished && a == ManualPushAction::Fail(err)
        },
        (ManualPushStage::ResolvingHead, ManualPushEvent::Failed(_)) => n.stage == ManualPushStage::Pushing
            && n.commit_hash@ == "HEAD"@ && (a matches ManualPushAction::Push(rs) && rs@ == "refs/heads/"@ + r.branch@),
        (_, ManualPushEvent::Failed(err)) => n.stage == ManualPushStage::Finished && a == ManualPushAction::Fail(err),
        (ManualPushStage::PreparingDir, _) => n.stage == ManualPushStage::EnsuringRepo && a == ManualPushAction::EnsureRepo,
        (ManualPushStage::EnsuringRepo, _) => n.stage == ManualPushStage::FindingExport && a
            == ManualPushAction::FindLatestExport,
        (ManualPushStage::FindingExport, ManualPushEvent::Latest(found)) => match found {
            Some(f) => n.stage == ManualPushStage::Importing && n.file == f && a == ManualPushAction::Import(f),
            None => n.stage == ManualPushStage::Finished && (a matches ManualPushAction::Fail(BridgeError::Config(m))
                && m@ == no_export_message(r.dir@)),
        },
        (ManualPushStage::Importing, _) => n.stage == ManualPushStage::Committing && n.file == r.file && (a matches ManualPushAction::Commit(
            m,
            author,
        ) && m@ == manual_message(r.file@, r.project_id@) && author == r.author),
        (ManualPushStage::Committing, ManualPushEvent::Committed(h)) => n.stage == ManualPushStage::Pushing
            && n.commit_hash == h && (a matches ManualPushAction::Push(rs) && rs@ == "refs/heads/"@ + r.branch@),
        (ManualPushStage::ResolvingHead, ManualPushEvent::Head(h)) => n.stage == ManualPushStage::Pushing
            && n.commit_hash == h && (a matches ManualPushAction::Push(rs) && rs@ == "refs/heads/"@ + r.branch@),
        (ManualPushStage::Pushing, _) => n.stage == ManualPushStage::Finished && a == ManualPushAction::Succeed(
            r.commit_hash,
        ),
        _ => false,
    }
}

/// A manual push whose commit found nothing to commit still pushes, and then
/// reports the hash of the HEAD commit it resolved; when HEAD cannot be
/// resolved it pushes all the same and reports the marker `HEAD`.
pub proof fn law_nothing_to_commit_reports_head(
    r: ManualPush,
    err: BridgeError,
    n1: ManualPush,
    a1: ManualPushAction,
    h: String,
    n2: ManualPush,
    a2: ManualPushAction,
    n3: ManualPush,
    a3: ManualPushAction,
)
    requires
        r.stage == ManualPushStage::Committing,
        is_nothing_to_commit(spec_error_message(err)),
        manual_next(r, ManualPushEvent::Failed(err), n1, a1),
        manual_next(n1, ManualPushEvent::Head(h), n2, a2),
        manual_next(n2, ManualPushEvent::Done, n3, a3),
    ensures
        a1 == ManualPushAction::ResolveHead,
        a2 matches ManualPushAction::Push(rs) && rs@ == "refs/heads/"@ + r.branch@,
        a3 == ManualPushAction::Succeed(h),
{
}

/// Failing to resolve HEAD after nothing to commit never ends a manual push:
/// it pushes and reports the marker `HEAD`.
pub proof fn law_unresolved_head_still_pushes(
    r: ManualPush,
    err: BridgeError,
    n1: ManualPush,
    a1: ManualPushAction,
    n2: ManualPush,
    a2: ManualPushAction,
)
    requires
        r.stage == ManualPushStage::ResolvingHead,
        manual_next(r, ManualPushEvent::Failed(err), n1, a1),
        manual_next(n1, ManualPushEvent::Done, n2, a2),
    ensures
        a1 matches ManualPushAction::Push(rs) && rs@ == "refs/heads/"@ + r.branch@,
        a2 matches ManualPushAction::Succeed(h) && h@ == "HEAD"@,
{
}

fn clone_author(a: &Option<(String, String)>) -> (r: Option<(String, String)>)
    ensures
        r == *a,
{
    match a {
        Some((n, e)) => {
            let n2 = n.clone();
            let e2 = e.clone();
            proof {
                assert(n2 == *n) by {
                    assert(n2@ == n@);
                }
            }
            Some((n2, e2))
        },
        None => None,
    }
}

impl ManualPush {
    /// Begin a manual push of `project_id` to `branch`, or fail when no watch
    /// has that project id.
    pub fn start(cfg: &Config, project_id: &str, branch: &str) -> (r: Result<(ManualPush, ManualPushAction), BridgeError>)
        ensures
            match r {
                Err(e) => (forall|j: int| 0 <= j < cfg.watch@.len() ==> (#[trigger] cfg.watch@[j]).project_id@ != project_id@)
                    && (e matches BridgeError::Config(m) && m@ == no_watch_message(project_id@)),
                Ok((p, a)) => exists|k: int|
                    is_first_watch(cfg.watch@, project_id@, k) && p.dir@ == cfg.watch@[k].path@ && p.project_id@
                        == project_id@ && p.branch@ == branch@ && author_view(p.author) == manual_author(*cfg)
                        && p.stage == ManualPushStage::PreparingDir && (a matches ManualPushAction::EnsureDir(d) && d@
                        == p.dir@),
            },
    {
        let mut k: usize = 0;
        while k < cfg.watch.len()
            invariant
                k <= cfg.watch.len(),
                forall|j: int| 0 <= j < k ==> (#[trigger] cfg.watch@[j]).project_id@ != project_id@,
            decreases cfg.watch.len() - k,
        {
            if str_eq(cfg.watch[k].project_id.as_str(), project_id) {
                let author = match (&cfg.default_author_name, &cfg.default_author_email) {
                    (Some(n), Some(e)) => Some((n.clone(), e.clone())),
                    _ => None,
                };
                let dir = cfg.watch[k].path.clone();
                let push = ManualPush {
                    project_id: owned(project_id),
                    branch: owned(branch),
                    dir: dir.clone(),
                    author,
                    stage: ManualPushStage::PreparingDir,
                    file: String::new(),
                    commit_hash: String::new(),
                };
                proof {
                    assert(is_first_watch(cfg.watch@, project_id@, k as int));
                }
                return Ok((push, ManualPushAction::EnsureDir(dir)));
            }
            k = k + 1;
        }
        let mut m = cat(&chars_of("no [[watch]] entry registered for project_id `"), &chars_of(project_id));
        m = cat(
            &m,
            &chars_of("`. Add one to config.toml or configure the project from the architur web UI before pushing."),
        );
        Err(BridgeError::Config(string_of(&m)))
    }

    /// Whether the push is waiting for an event of this shape.
    pub fn accepts(&self, e: &ManualPushEvent) -> (r: bool)
        ensures
            r == manual_accepts(self.stage, *e),
    {
        match self.stage {
            ManualPushStage::PreparingDir | ManualPushStage::EnsuringRepo | ManualPushStage::Importing
            | ManualPushStage::Pushing => matches!(e, ManualPushEvent::Done | ManualPushEvent::Failed(_)),
            ManualPushStage::FindingExport => matches!(e, ManualPushEvent::Latest(_) | ManualPushEvent::Failed(_)),
            ManualPushStage::Committing => matches!(e, ManualPushEvent::Committed(_) | ManualPushEvent::Failed(_)),
            ManualPushStage::ResolvingHead => matches!(e, ManualPushEvent::Head(_) | ManualPushEvent::Failed(_)),
            ManualPushStage::Finished => false,
        }
    }

    fn refspec(&self) -> (r: String)
        ensures
            r@ == "refs/heads/"@ + self.branch@,
    {
        joined("refs/heads/", self.branch.as_str())
    }

    /// Advance the push by the outcome of its last action.
    pub fn step(self, e: ManualPushEvent) -> (r: (ManualPush, ManualPushAction))
        requires
            manual_accepts(self.stage, e),
        ensures
            manual_next(self, e, r.0, r.1),
    {
        let mut next = self;
        match e {
            ManualPushEvent::Failed(err) => {
                if matches!(next.stage, ManualPushStage::ResolvingHead) {
                    next.stage = ManualPushStage::Pushing;
                    next.commit_hash = owned("HEAD");
                    let rs = next.refspec();
                    (next, ManualPushAction::Push(rs))
                } else if matches!(next.stage, ManualPushStage::Committing) && nothing_to_commit(err.message().as_str()) {
                    next.stage = ManualPushStage::ResolvingHead;
                    (next, ManualPushAction::ResolveHead)
                } else {
                    next.stage = ManualPushStage::Finished;
                    (next, ManualPushAction::Fail(err))
                }
            },
            ManualPushEvent::Latest(found) => {
                match found {
                    Some(f) => {
                        next.stage = ManualPushStage::Importing;
                        next.file = f.clone();
                        (next, ManualPushAction::Import(f))
                    },
                    None => {
                        let mut m = cat(
                            &chars_of("no IFC file found under configured project directory `"),
                            &chars_of(next.dir.as_str()),
                        );
                        m = cat(&m, &chars_of("`"));
                        next.stage = ManualPushStage::Finished;
                        (next, ManualPushAction::Fail(BridgeError::Config(string_of(&m))))
                    },
                }
            },
            ManualPushEvent::Head(h) => {
                next.stage = ManualPushStage::Pushing;
                next.commit_hash = h;
                let rs = next.refspec();
                (next, ManualPushAction::Push(rs))
            },
            ManualPushEvent::Committed(h) => {
                next.stage = ManualPushStage::Pushing;
                next.commit_hash = h;
                let rs = next.refspec();
                (next, ManualPushAction::Push(rs))
            },
            ManualPushEvent::Done => {
                match next.stage {
                    ManualPushStage::PreparingDir => {
                        next.stage = ManualPushStage::EnsuringRepo;
                        (next, ManualPushAction::EnsureRepo)
                    },
                    ManualPushStage::EnsuringRepo => {
                        next.stage = ManualPushStage::FindingExport;
                        (next, ManualPushAction::FindLatestExport)
                    },
                    ManualPushStage::Importing => {
                        let name = match path_file_name(next.file.as_str()) {
                            Some(n) => n,
                            None => next.project_id.clone(),
                        };
                        let mut m = cat(&chars_of("manual push via vex-bridge ("), &chars_of(name.as_str()));
                        m = cat(&m, &chars_of(")"));
                        let author = clone_author(&next.author);
                        next.stage = ManualPushStage::Committing;
                        (next, ManualPushAction::Commit(string_of(&m), author))
                    },
                    _ => {
                        let hash = next.commit_hash.clone();
                        next.stage = ManualPushStage::Finished;
                        (next, ManualPushAction::Succeed(hash))
                    },
                }
            },
        }
    }
}

/// A live watch over one project folder.
#[derive(Debug, Clone, PartialEq, Eq)]
pub struct WatchPipeline {
    pub project_id: String,
    pub path: String,
}

// ---- waiting for an export to settle ---------------------------------------------------

/// How many times an export's size and modification time are sampled before
/// the pipeline goes ahead anyway.
pub const FILE_STABLE_ATTEMPTS: usize = 10;

/// Waiting for an export to settle: it has settled once two consecutive
/// samples of its size and modification time agree.
#[derive(Debug, Clone, Copy, PartialEq, Eq)]
pub struct StableFileWait {
    pub last: Option<(u64, Option<i128>)>,
    pub attempts: usize,
}

impl StableFileWait {
    pub fn new() -> (w: StableFileWait)
        ensures
            w.last is None,
            w.attempts == 0,
    {
        StableFileWait { last: None, attempts: 0 }
    }

    /// Whether another sample should be taken.
    pub fn wants_more(&self) -> (r: bool)
        ensures
            r == (self.attempts < FILE_STABLE_ATTEMPTS),
    {
        self.attempts < FILE_STABLE_ATTEMPTS
    }

    /// Record a sample; true when it agrees with the previous one.
    pub fn observe(&mut self, size: u64, modified: Option<i128>) -> (settled: bool)
        requires
            old(self).attempts < FILE_STABLE_ATTEMPTS,
        ensures
            final(self).attempts == old(self).attempts + 1,
            settled == (old(self).last == Some((size, modified))),
            final(self).last == Some((size, modified)),
    {
        self.attempts = self.attempts + 1;
        let same = match self.last {
            Some((s, m)) => s == size && match (m, modified) {
                (Some(a), Some(b)) => a == b,
                (None, None) => true,
                _ => false,
            },
            None => false,
        };
        self.last = Some((size, modified));
        same
    }
}


/// What an automatic commit message says: `auto: <project> from <source> (<file>)`,
/// where the project is the export's project name, else the watch's name, else
/// the watch's id; and the source is the exporting application, else the
/// header's description, else `IFC export`.
pub proof fn law_commit_message_names_project_and_source(entry: WatchEntry, intake: IfcIntake, changed: Seq<char>)
    ensures
        ({
            let project = match intake.project_name {
                Some(p) => p@,
                None => match entry.project_name {
                    Some(q) => q@,
                    None => entry.project_id@,
                },
            };
            let tail = " ("@ + spec_file_label(changed) + ")"@;
            &&& (intake.originating_system matches Some(o) ==> spec_commit_message(entry, intake, changed)
                == "auto: "@ + project + " from "@ + o@ + tail)
            &&& (intake.originating_system is None && intake.description is Some ==> spec_commit_message(
                entry,
                intake,
                changed,
            ) == "auto: "@ + project + " from "@ + intake.description->0@ + tail)
            &&& intake.originating_system is None && intake.description is None ==> spec_commit_message(
                entry,
                intake,
                changed,
            ) == "auto: "@ + project + " from IFC export"@ + tail
        }),
{
    reveal_strlit(" from ");
    reveal_strlit("IFC export");
    reveal_strlit(" from IFC export");
    assert(" from "@ + "IFC export"@ =~= " from IFC export"@);
    let project = first_some(intake.project_name, entry.project_name, entry.project_id@);
    let tail = " ("@ + spec_file_label(changed) + ")"@;
    if intake.originating_system is None && intake.description is None {
        assert("auto: "@ + project + " from "@ + "IFC export"@ + tail =~= "auto: "@ + project + " from IFC export"@ + tail);
    }
}

} // verus!
