//! Redacted, structured crash reports: secret redaction, filesystem-safe report
//! names and RFC 3339 timestamps.

use vstd::prelude::*;
use crate::text::{
    is_ws, char_is_ws, dec, pad_zero, is_ascii_alpha, is_ascii_digit, is_ascii_alnum, is_secret_char,
    char_is_ascii_alpha, char_is_ascii_digit, char_is_ascii_alnum, char_is_secret_char, trim_by,
    class_pred, CharClass, trim_vec, chars_of, string_of, cat, slice_vec, chars_eq, replace_all,
    replace_vec, utf8_len, utf8_len_of, fmt_int_padded, fmt_int, fmt_i64_padded, fmt_u64,
    path_join, path_join_vec, occurs_at, replace_from,
};

verus! {

/// Minimum length (in characters) of a word the secret-shape check considers.
pub const MIN_SECRET_LEN: usize = 20;

/// Placeholder for positively identified secrets (the local access token).
pub const TOKEN_PLACEHOLDER: &'static str = "[redacted-token]";

/// Placeholder for the heuristic secret-shaped word pass.
pub const GENERIC_PLACEHOLDER: &'static str = "[redacted]";

/// One panic, captured as a small, redacted, structured record.
#[derive(Debug, Clone, PartialEq, Eq)]
pub struct CrashReport {
    pub timestamp: String,
    pub executable: String,
    pub version: String,
    pub os: String,
    pub thread: String,
    pub location: Option<String>,
    pub message: String,
    pub backtrace: Option<String>,
}

/// Filesystem layout of the bridge, with every location as text.
#[derive(Debug, Clone, PartialEq, Eq)]
pub struct Paths {
    pub config_dir: String,
    pub data_dir: String,
    pub config_file: String,
    pub state_file: String,
    pub access_token_file: String,
    pub log_file: String,
    pub daemon_lock_file: String,
}

impl Paths {
    /// The bridge's files inside its platform configuration and data directories.
    pub fn from_dirs(config_dir: String, data_dir: String) -> (p: Paths)
        ensures
            p.config_dir == config_dir,
            p.data_dir == data_dir,
            p.config_file@ == path_join(config_dir@, "config.toml"@),
            p.access_token_file@ == path_join(config_dir@, "access-token"@),
            p.log_file@ == path_join(data_dir@, "vex-bridge.log"@),
            p.state_file@ == path_join(data_dir@, "state.json"@),
            p.daemon_lock_file@ == path_join(data_dir@, "daemon.lock"@),
    {
        let c = chars_of(config_dir.as_str());
        let d = chars_of(data_dir.as_str());
        Paths {
            config_file: string_of(&path_join_vec(&c, &chars_of("config.toml"))),
            access_token_file: string_of(&path_join_vec(&c, &chars_of("access-token"))),
            log_file: string_of(&path_join_vec(&d, &chars_of("vex-bridge.log"))),
            state_file: string_of(&path_join_vec(&d, &chars_of("state.json"))),
            daemon_lock_file: string_of(&path_join_vec(&d, &chars_of("daemon.lock"))),
            config_dir,
            data_dir,
        }
    }
}

/// `<data_dir>/crash-reports`, sibling to the daemon log and state file.
pub fn crash_reports_dir(paths: &Paths) -> (r: String)
    ensures
        r@ == path_join(paths.data_dir@, "crash-reports"@),
{
    let base = chars_of(paths.data_dir.as_str());
    let comp = chars_of("crash-reports");
    string_of(&path_join_vec(&base, &comp))
}

// ---- file names ------------------------------------------------------------------

pub open spec fn is_name_char(c: char) -> bool {
    is_ascii_alnum(c) || c == '-' || c == '_'
}

/// Every character outside `[A-Za-z0-9_-]` becomes `_`; an empty result is `crash`.
pub open spec fn spec_sanitize_component(v: Seq<char>) -> Seq<char> {
    if v.len() == 0 {
        "crash"@
    } else {
        Seq::new(v.len(), |i: int| if is_name_char(v[i]) { v[i] } else { '_' })
    }
}

pub fn sanitize_component(value: &str) -> (r: String)
    ensures
        r@ == spec_sanitize_component(value@),
{
    let v = chars_of(value);
    let mut out: Vec<char> = Vec::new();
    let mut i: usize = 0;
    while i < v.len()
        invariant
            i <= v.len(),
            v@ == value@,
            out@ == Seq::new(i as nat, |k: int| if is_name_char(v@[k]) { v@[k] } else { '_' }),
        decreases v.len() - i,
    {
        let c = v[i];
        if char_is_ascii_alnum(c) || c == '-' || c == '_' {
            out.push(c);
        } else {
            out.push('_');
        }
        i = i + 1;
        proof {
            assert(out@ =~= Seq::new(i as nat, |k: int| if is_name_char(v@[k]) { v@[k] } else { '_' }));
        }
    }
    if out.len() == 0 {
        return string_of(&chars_of("crash"));
    }
    proof {
        assert(out@ =~= spec_sanitize_component(value@));
    }
    string_of(&out)
}

pub open spec fn spec_report_file_name(executable: Seq<char>, unix_ts: int, pid: int) -> Seq<char> {
    spec_sanitize_component(executable) + "-"@ + fmt_int(unix_ts) + "-"@ + fmt_int(pid) + ".json"@
}

/// `<sanitized executable>-<unix_ts>-<pid>.json`.
pub fn report_file_name(executable: &str, unix_ts: i64, pid: u32) -> (r: String)
    ensures
        r@ == spec_report_file_name(executable@, unix_ts as int, pid as int),
{
    let name = chars_of(sanitize_component(executable).as_str());
    let dash = chars_of("-");
    let a = cat(&name, &dash);
    let b = cat(&a, &fmt_i64_padded(unix_ts, 0));
    let c = cat(&b, &dash);
    let d = cat(&c, &fmt_u64(pid as u64));
    let e = cat(&d, &chars_of(".json"));
    string_of(&e)
}

// ---- timestamps ------------------------------------------------------------------

/// Howard Hinnant's `civil_from_days`: the proleptic-Gregorian `(year, month, day)`
/// of the day `z` days after 1970-01-01.
pub open spec fn spec_civil_from_days(z: int) -> (int, int, int) {
    let z = z + 719_468;
    let era = z / 146_097;
    let doe = z - era * 146_097;
    let yoe = (doe - doe / 1460 + doe / 36524 - doe / 146096) / 365;
    let y = yoe + era * 400;
    let doy = doe - (365 * yoe + yoe / 4 - yoe / 100);
    let mp = (5 * doy + 2) / 153;
    let d = doy - (153 * mp + 2) / 5 + 1;
    let m = if mp < 10 {
        mp + 3
    } else {
        mp - 9
    };
    let y = if m <= 2 {
        y + 1
    } else {
        y
    };
    (y, m, d)
}

/// `YYYY-MM-DDTHH:MM:SSZ` for a Unix timestamp (UTC).
pub open spec fn spec_format_rfc3339(unix_secs: int) -> Seq<char> {
    let days = unix_secs / 86_400;
    let secs = unix_secs % 86_400;
    let (y, m, d) = spec_civil_from_days(days);
    fmt_int_padded(y, 4) + "-"@ + fmt_int_padded(m, 2) + "-"@ + fmt_int_padded(d, 2) + "T"@
        + fmt_int_padded(secs / 3600, 2) + ":"@ + fmt_int_padded((secs % 3600) / 60, 2) + ":"@
        + fmt_int_padded(secs % 60, 2) + "Z"@
}

/// Civil date of a day count; month is in `1..=12` and day in `1..=31`.
pub fn civil_from_days(z: i64) -> (r: (i64, u32, u32))
    requires
        -0x4000_0000_0000_0000 <= z <= 0x4000_0000_0000_0000,
    ensures
        r.0 == spec_civil_from_days(z as int).0,
        r.1 == spec_civil_from_days(z as int).1,
        r.2 == spec_civil_from_days(z as int).2,
        1 <= r.1 <= 12,
        1 <= r.2 <= 31,
{
    let z2: i64 = z + 719_468;
    let era: i64 = z2.checked_div_euclid(146_097).unwrap();
    let doe_i: i64 = z2 - era * 146_097;
    assert(0 <= doe_i < 146_097) by (nonlinear_arith)
        requires
            era == z2 / 146_097,
            doe_i == z2 - era * 146_097,
    ;
    let doe: u64 = doe_i as u64;
    let yoe: u64 = (doe - doe / 1460 + doe / 36524 - doe / 146096) / 365;
    assert(yoe <= 399) by (nonlinear_arith)
        requires
            doe < 146_097,
            yoe == (doe - doe / 1460 + doe / 36524 - doe / 146096) / 365,
    ;
    let y: i64 = yoe as i64 + era * 400;
    assert(365 * yoe + yoe / 4 - yoe / 100 <= doe) by (nonlinear_arith)
        requires
            doe < 146_097,
            yoe == (doe - doe / 1460 + doe / 36524 - doe / 146096) / 365,
    ;
    let doy: u64 = doe - (365 * yoe + yoe / 4 - yoe / 100);
    assert(doy <= 365) by (nonlinear_arith)
        requires
            doe < 146_097,
            yoe == (doe - doe / 1460 + doe / 36524 - doe / 146096) / 365,
            doy == doe - (365 * yoe + yoe / 4 - yoe / 100),
    ;
    let mp: u64 = (5 * doy + 2) / 153;
    assert(mp <= 11 && (153 * mp + 2) / 5 <= doy && doy - (153 * mp + 2) / 5 <= 30) by (nonlinear_arith)
        requires
            doy <= 365,
            mp == (5 * doy + 2) / 153,
    ;
    let d: u32 = (doy - (153 * mp + 2) / 5 + 1) as u32;
    let m: u32 = if mp < 10 {
        (mp + 3) as u32
    } else {
        (mp - 9) as u32
    };
    let y2: i64 = if m <= 2 {
        y + 1
    } else {
        y
    };
    (y2, m, d)
}

/// Hand-rolled UTC RFC 3339 formatter (`YYYY-MM-DDTHH:MM:SSZ`).
pub fn format_rfc3339(unix_secs: i64) -> (r: String)
    ensures
        r@ == spec_format_rfc3339(unix_secs as int),
{
    let days: i64 = unix_secs.checked_div_euclid(86_400).unwrap();
    let secs: i64 = unix_secs.checked_rem_euclid(86_400).unwrap();
    assert(-0x4000_0000_0000_0000 <= days <= 0x4000_0000_0000_0000) by (nonlinear_arith)
        requires
            days == unix_secs as int / 86_400,
            i64::MIN <= unix_secs <= i64::MAX,
    ;
    let (year, month, day) = civil_from_days(days);
    let hour: i64 = secs / 3600;
    let minute: i64 = (secs % 3600) / 60;
    let second: i64 = secs % 60;
    let dash = chars_of("-");
    let colon = chars_of(":");
    let mut out = fmt_i64_padded(year, 4);
    out = cat(&out, &dash);
    out = cat(&out, &fmt_i64_padded(month as i64, 2));
    out = cat(&out, &dash);
    out = cat(&out, &fmt_i64_padded(day as i64, 2));
    out = cat(&out, &chars_of("T"));
    out = cat(&out, &fmt_i64_padded(hour, 2));
    out = cat(&out, &colon);
    out = cat(&out, &fmt_i64_padded(minute, 2));
    out = cat(&out, &colon);
    out = cat(&out, &fmt_i64_padded(second, 2));
    out = cat(&out, &chars_of("Z"));
    string_of(&out)
}

// ---- redaction -------------------------------------------------------------------

/// Long (at least `MIN_SECRET_LEN` characters), only `[A-Za-z0-9+/_=-]`, and
/// mixing letters with digits: the shape of bearer tokens and encoded keys.
pub open spec fn spec_looks_like_secret(w: Seq<char>) -> bool {
    &&& w.len() >= MIN_SECRET_LEN
    &&& forall|i: int| 0 <= i < w.len() ==> is_secret_char(#[trigger] w[i])
    &&& exists|i: int| 0 <= i < w.len() && is_ascii_alpha(#[trigger] w[i])
    &&& exists|i: int| 0 <= i < w.len() && is_ascii_digit(#[trigger] w[i])
}

pub fn looks_like_secret_chars(w: &Vec<char>) -> (r: bool)
    ensures
        r == spec_looks_like_secret(w@),
{
    if w.len() < MIN_SECRET_LEN {
        return false;
    }
    let mut has_alpha = false;
    let mut has_digit = false;
    let mut i: usize = 0;
    while i < w.len()
        invariant
            i <= w.len(),
            w.len() >= MIN_SECRET_LEN,
            forall|k: int| 0 <= k < i ==> is_secret_char(#[trigger] w@[k]),
            has_alpha == exists|k: int| 0 <= k < i && is_ascii_alpha(#[trigger] w@[k]),
            has_digit == exists|k: int| 0 <= k < i && is_ascii_digit(#[trigger] w@[k]),
        decreases w.len() - i,
    {
        let c = w[i];
        if !char_is_secret_char(c) {
            return false;
        }
        if char_is_ascii_alpha(c) {
            has_alpha = true;
        }
        if char_is_ascii_digit(c) {
            has_digit = true;
        }
        i = i + 1;
    }
    has_alpha && has_digit
}

/// `true` for words that look like secret material.
pub fn looks_like_secret(word: &str) -> (r: bool)
    ensures
        r == spec_looks_like_secret(word@),
{
    looks_like_secret_chars(&chars_of(word))
}

/// Strips wrapping characters outside the secret alphabet.
pub open spec fn spec_trim_secret_punctuation(w: Seq<char>) -> Seq<char> {
    trim_by(w, class_pred(CharClass::NotSecretChar))
}

pub fn trim_secret_punctuation(word: &str) -> (r: String)
    ensures
        r@ == spec_trim_secret_punctuation(word@),
{
    string_of(&trim_vec(&chars_of(word), &CharClass::NotSecretChar))
}

/// End of the whitespace-free run starting at `i`.
pub open spec fn word_end(t: Seq<char>, i: int) -> int
    decreases t.len() - i,
{
    if i < 0 || i >= t.len() || is_ws(t[i]) {
        i
    } else {
        word_end(t, i + 1)
    }
}

/// The whitespace-separated words of `t[i..]` (`str::split_whitespace`).
pub open spec fn words_from(t: Seq<char>, i: int) -> Seq<Seq<char>>
    decreases t.len() - i, 1int,
{
    if i < 0 || i >= t.len() {
        Seq::empty()
    } else if is_ws(t[i]) {
        words_from(t, i + 1)
    } else {
        let e = word_end(t, i + 1);
        if i < e <= t.len() {
            seq![t.subrange(i, e)] + words_from(t, e)
        } else {
            Seq::empty()
        }
    }
}

pub open spec fn words(t: Seq<char>) -> Seq<Seq<char>> {
    words_from(t, 0)
}

proof fn lemma_word_end_bounds(t: Seq<char>, i: int)
    requires
        0 <= i <= t.len(),
    ensures
        i <= word_end(t, i) <= t.len(),
        forall|k: int| i <= k < word_end(t, i) ==> !is_ws(#[trigger] t[k]),
        word_end(t, i) < t.len() ==> is_ws(t[word_end(t, i)]),
    decreases t.len() - i,
{
    if i < t.len() && !is_ws(t[i]) {
        lemma_word_end_bounds(t, i + 1);
    }
}

/// Splits on Unicode whitespace, dropping empty pieces.
pub fn split_whitespace(t: &Vec<char>) -> (r: Vec<Vec<char>>)
    ensures
        r@.len() == words(t@).len(),
        forall|k: int| 0 <= k < r@.len() ==> (#[trigger] r@[k])@ == words(t@)[k],
{
    let mut r: Vec<Vec<char>> = Vec::new();
    let mut i: usize = 0;
    while i < t.len()
        invariant
            i <= t.len(),
            r@.len() + words_from(t@, i as int).len() == words(t@).len(),
            forall|k: int| 0 <= k < r@.len() ==> (#[trigger] r@[k])@ == words(t@)[k],
            forall|k: int|
                0 <= k < words_from(t@, i as int).len() ==> words(t@)[r@.len() + k]
                    == #[trigger] words_from(t@, i as int)[k],
        decreases t.len() - i,
    {
        if char_is_ws(t[i]) {
            i = i + 1;
        } else {
            let mut e: usize = i + 1;
            proof {
                lemma_word_end_bounds(t@, i + 1);
            }
            while e < t.len() && !char_is_ws(t[e])
                invariant
                    i < e <= t.len(),
                    word_end(t@, i + 1) == word_end(t@, e as int),
                decreases t.len() - e,
            {
                e = e + 1;
            }
            let w = slice_vec(t, i, e);
            let ghost wf = words_from(t@, i as int);
            proof {
                assert(wf == seq![t@.subrange(i as int, e as int)] + words_from(t@, e as int));
                assert(wf[0] == w@);
                assert forall|k: int| 0 <= k < words_from(t@, e as int).len() implies words(t@)[r@.len()
                    + 1 + k] == #[trigger] words_from(t@, e as int)[k] by {
                    assert(wf[k + 1] == words_from(t@, e as int)[k]);
                }
            }
            r.push(w);
            i = e;
        }
    }
    r
}

/// One step of the heuristic pass: redact `word`'s core unless already done.
pub open spec fn token_step(
    state: (Seq<char>, Set<Seq<char>>),
    word: Seq<char>,
) -> (Seq<char>, Set<Seq<char>>) {
    let core = spec_trim_secret_punctuation(word);
    if spec_looks_like_secret(core) && !state.1.contains(core) {
        (replace_all(state.0, core, GENERIC_PLACEHOLDER@), state.1.insert(core))
    } else {
        state
    }
}

/// State after the first `n` words of `ws` have been processed.
pub open spec fn token_fold(start: Seq<char>, ws: Seq<Seq<char>>, n: int) -> (
    Seq<char>,
    Set<Seq<char>>,
)
    decreases n,
{
    if n <= 0 {
        (start, Set::empty())
    } else {
        token_step(token_fold(start, ws, n - 1), ws[n - 1])
    }
}

/// Heuristic pass: every secret-shaped word of the input text, trimmed of
/// wrapping punctuation, has all its occurrences replaced by `[redacted]`.
pub open spec fn spec_redact_token_like_words(t: Seq<char>) -> Seq<char> {
    token_fold(t, words(t), words(t).len() as int).0
}

fn seen_contains(seen: &Vec<Vec<char>>, c: &Vec<char>) -> (r: bool)
    ensures
        r == exists|k: int| 0 <= k < seen@.len() && (#[trigger] seen@[k])@ == c@,
{
    let mut k: usize = 0;
    while k < seen.len()
        invariant
            k <= seen.len(),
            forall|j: int| 0 <= j < k ==> (#[trigger] seen@[j])@ != c@,
        decreases seen.len() - k,
    {
        if chars_eq(&seen[k], c) {
            return true;
        }
        k = k + 1;
    }
    false
}

fn redact_token_like_words(text: &Vec<char>) -> (r: Vec<char>)
    ensures
        r@ == spec_redact_token_like_words(text@),
{
    let ws = split_whitespace(text);
    let placeholder = chars_of(GENERIC_PLACEHOLDER);
    let mut redacted: Vec<char> = slice_vec(text, 0, text.len());
    proof {
        assert(text@.subrange(0, text@.len() as int) =~= text@);
    }
    let mut seen: Vec<Vec<char>> = Vec::new();
    let mut n: usize = 0;
    while n < ws.len()
        invariant
            n <= ws@.len() == words(text@).len(),
            forall|k: int| 0 <= k < ws@.len() ==> (#[trigger] ws@[k])@ == words(text@)[k],
            placeholder@ == GENERIC_PLACEHOLDER@,
            redacted@ == token_fold(text@, words(text@), n as int).0,
            forall|c: Seq<char>|
                #[trigger] token_fold(text@, words(text@), n as int).1.contains(c) <==> exists|k: int|
                    0 <= k < seen@.len() && (#[trigger] seen@[k])@ == c,
        decreases ws.len() - n,
    {
        let core = trim_vec(&ws[n], &CharClass::NotSecretChar);
        let ghost prev = token_fold(text@, words(text@), n as int);
        proof {
            assert(ws@[n as int]@ == words(text@)[n as int]);
            assert(core@ == spec_trim_secret_punctuation(words(text@)[n as int]));
            assert(token_fold(text@, words(text@), n + 1) == token_step(prev, words(text@)[n as int]));
        }
        if looks_like_secret_chars(&core) && !seen_contains(&seen, &core) {
            proof {
                assert(core@.len() >= MIN_SECRET_LEN);
                assert(!prev.1.contains(core@));
                assert(token_fold(text@, words(text@), n + 1).1 == prev.1.insert(core@));
            }
            redacted = replace_vec(&redacted, &core, &placeholder);
            let ghost old_seen = seen@;
            seen.push(core);
            proof {
                assert forall|c: Seq<char>|
                    #[trigger] token_fold(text@, words(text@), n + 1).1.contains(c) <==> exists|k: int|
                        0 <= k < seen@.len() && (#[trigger] seen@[k])@ == c by {
                    let was = token_fold(text@, words(text@), n as int).1.contains(c);
                    assert(was <==> exists|k: int|
                        0 <= k < old_seen.len() && (#[trigger] old_seen[k])@ == c);
                    if c == core@ {
                        assert(seen@[old_seen.len() as int]@ == c);
                    } else {
                        if exists|k: int| 0 <= k < old_seen.len() && (#[trigger] old_seen[k])@ == c {
                            let k = choose|k: int| 0 <= k < old_seen.len() && (#[trigger] old_seen[k])@ == c;
                            assert(seen@[k] == old_seen[k]);
                        }
                        if exists|k: int| 0 <= k < seen@.len() && (#[trigger] seen@[k])@ == c {
                            let k = choose|k: int| 0 <= k < seen@.len() && (#[trigger] seen@[k])@ == c;
                            if k < old_seen.len() {
                                assert(seen@[k] == old_seen[k]);
                            }
                        }
                    }
                }
            }
        }
        n = n + 1;
    }
    redacted
}

/// Exact replacement of each known secret of at least 8 UTF-8 bytes, in order.
pub open spec fn known_fold(t: Seq<char>, secrets: Seq<Seq<char>>, n: int) -> Seq<char>
    decreases n,
{
    if n <= 0 {
        t
    } else {
        let prev = known_fold(t, secrets, n - 1);
        let s = secrets[n - 1];
        if utf8_len(s) >= 8 {
            replace_all(prev, s, TOKEN_PLACEHOLDER@)
        } else {
            prev
        }
    }
}

pub open spec fn secrets_view(secrets: Seq<String>) -> Seq<Seq<char>> {
    Seq::new(secrets.len(), |i: int| secrets[i]@)
}

pub open spec fn spec_redact_known_secrets(t: Seq<char>, secrets: Seq<String>) -> Seq<char> {
    known_fold(t, secrets_view(secrets), secrets.len() as int)
}

/// Replace exact occurrences of each known secret (of at least 8 bytes).
pub fn redact_known_secrets(text: &str, secrets: &Vec<String>) -> (r: String)
    ensures
        r@ == spec_redact_known_secrets(text@, secrets@),
{
    let placeholder = chars_of(TOKEN_PLACEHOLDER);
    let mut redacted = chars_of(text);
    let mut n: usize = 0;
    while n < secrets.len()
        invariant
            n <= secrets.len(),
            placeholder@ == TOKEN_PLACEHOLDER@,
            redacted@ == known_fold(text@, secrets_view(secrets@), n as int),
        decreases secrets.len() - n,
    {
        let s = chars_of(secrets[n].as_str());
        if utf8_len_of(&s) >= 8 {
            proof {
                assert(utf8_len(s@) >= 8);
                assert(s@.len() > 0) by {
                    if s@.len() == 0 {
                        assert(utf8_len(s@) == 0);
                    }
                }
            }
            redacted = replace_vec(&redacted, &s, &placeholder);
        }
        n = n + 1;
    }
    string_of(&redacted)
}

/// Replace the home directory (when known and non-empty) with `~`.
pub open spec fn spec_redact_home_dir(t: Seq<char>, home: Option<Seq<char>>) -> Seq<char> {
    match home {
        Some(h) if h.len() > 0 => replace_all(t, h, "~"@),
        _ => t,
    }
}

/// Redact secret-looking text: the home directory becomes `~`, each known
/// secret becomes `[redacted-token]`, and each secret-shaped word becomes
/// `[redacted]`. `home` and `known_secrets` are what the environment holds now
/// (the user's home directory and the local access token, when readable).
pub open spec fn spec_redact(t: Seq<char>, home: Option<Seq<char>>, secrets: Seq<String>) -> Seq<char> {
    spec_redact_token_like_words(
        spec_redact_known_secrets(spec_redact_home_dir(t, home), secrets),
    )
}

pub fn redact(text: &str, home: Option<&str>, known_secrets: &Vec<String>) -> (r: String)
    ensures
        r@ == spec_redact(
            text@,
            match home {
                Some(h) => Some(h@),
                None => None,
            },
            known_secrets@,
        ),
{
    let t = chars_of(text);
    let home_redacted = match home {
        Some(h) => {
            let hv = chars_of(h);
            if hv.len() > 0 {
                replace_vec(&t, &hv, &chars_of("~"))
            } else {
                t
            }
        },
        None => t,
    };
    let s1 = string_of(&home_redacted);
    let known = redact_known_secrets(s1.as_str(), known_secrets);
    string_of(&redact_token_like_words(&chars_of(known.as_str())))
}

impl CrashReport {
    /// Assemble a report; the message and backtrace are redacted with the given
    /// environment (`home`, `known_secrets`) and the timestamp is formatted as
    /// RFC 3339.
    pub fn build(
        unix_ts: i64,
        executable: String,
        thread: String,
        location: Option<String>,
        message: String,
        backtrace: Option<String>,
        version: String,
        os: String,
        home: Option<&str>,
        known_secrets: &Vec<String>,
    ) -> (r: Self)
        ensures
            r.timestamp@ == spec_format_rfc3339(unix_ts as int),
            r.executable == executable,
            r.thread == thread,
            r.location == location,
            r.version == version,
            r.os == os,
            r.message@ == spec_redact(
                message@,
                match home {
                    Some(h) => Some(h@),
                    None => None,
                },
                known_secrets@,
            ),
            match backtrace {
                Some(b) => r.backtrace is Some && r.backtrace->0@ == spec_redact(
                    b@,
                    match home {
                        Some(h) => Some(h@),
                        None => None,
                    },
                    known_secrets@,
                ),
                None => r.backtrace is None,
            },
    {
        let redacted_message = redact(message.as_str(), home, known_secrets);
        let redacted_backtrace = match &backtrace {
            Some(text) => Some(redact(text.as_str(), home, known_secrets)),
            None => None,
        };
        CrashReport {
            timestamp: format_rfc3339(unix_ts),
            executable,
            version,
            os,
            thread,
            location,
            message: redacted_message,
            backtrace: redacted_backtrace,
        }
    }
}

proof fn lemma_dec_digits(n: nat)
    ensures
        forall|i: int| 0 <= i < dec(n).len() ==> is_ascii_digit(#[trigger] dec(n)[i]),
    decreases n,
{
    if n >= 10 {
        lemma_dec_digits(n / 10);
        let d = dec(n / 10);
        assert forall|i: int| 0 <= i < dec(n).len() implies is_ascii_digit(#[trigger] dec(n)[i]) by {
            if i < d.len() {
                assert(dec(n)[i] == d[i]);
            }
        }
    }
}

proof fn lemma_fmt_int_chars(n: int)
    ensures
        forall|i: int| 0 <= i < fmt_int(n).len() ==> is_ascii_digit(#[trigger] fmt_int(n)[i]) || fmt_int(n)[i] == '-',
{
    if n < 0 {
        lemma_dec_digits((-n) as nat);
        let d = dec((-n) as nat);
        assert(pad_zero(d, 0) == d);
        assert forall|i: int| 0 <= i < fmt_int(n).len() implies is_ascii_digit(#[trigger] fmt_int(n)[i]) || fmt_int(
            n,
        )[i] == '-' by {
            if i > 0 {
                assert(fmt_int(n)[i] == d[i - 1]);
            }
        }
    } else {
        lemma_dec_digits(n as nat);
        assert(pad_zero(dec(n as nat), 0) == dec(n as nat));
    }
}

/// A sanitized component is never empty and holds only `[A-Za-z0-9_-]`, so it
/// can name no other directory and carries no path separator.
pub proof fn law_sanitized_component_is_safe(value: Seq<char>)
    ensures
        spec_sanitize_component(value).len() > 0,
        forall|i: int| 0 <= i < spec_sanitize_component(value).len() ==> is_name_char(
            #[trigger] spec_sanitize_component(value)[i],
        ),
{
    reveal_strlit("crash");
}

/// A report file name stays inside the crash-reports directory: it holds no
/// path separator and ends in `.json`.
pub proof fn law_report_file_name_has_no_separator(executable: Seq<char>, unix_ts: int, pid: int)
    ensures
        !spec_report_file_name(executable, unix_ts, pid).contains('/'),
        !spec_report_file_name(executable, unix_ts, pid).contains('\\'),
        spec_report_file_name(executable, unix_ts, pid).subrange(
            spec_report_file_name(executable, unix_ts, pid).len() - 5,
            spec_report_file_name(executable, unix_ts, pid).len() as int,
        ) == ".json"@,
{
    law_sanitized_component_is_safe(executable);
    lemma_fmt_int_chars(unix_ts);
    lemma_fmt_int_chars(pid);
    reveal_strlit("-");
    reveal_strlit(".json");
    let a = spec_sanitize_component(executable);
    let b = fmt_int(unix_ts);
    let c = fmt_int(pid);
    let r = spec_report_file_name(executable, unix_ts, pid);
    assert(r == a + "-"@ + b + "-"@ + c + ".json"@);
    assert forall|i: int| 0 <= i < r.len() implies r[i] != '/' && r[i] != '\\' by {
        if i < a.len() {
            assert(r[i] == a[i]);
        } else if i == a.len() {
        } else if i < a.len() + 1 + b.len() {
            assert(r[i] == b[i - a.len() - 1]);
        } else if i == a.len() + 1 + b.len() {
        } else if i < a.len() + 2 + b.len() + c.len() {
            assert(r[i] == c[i - a.len() - 2 - b.len()]);
        } else {
            assert(r[i] == ".json"@[i - a.len() - 2 - b.len() - c.len()]);
        }
    }
    assert(r.subrange(r.len() - 5, r.len() as int) =~= ".json"@);
}


// ---- what redaction leaves behind ----------------------------------------------------

pub open spec fn is_bracket(c: char) -> bool {
    c == '[' || c == ']'
}

pub open spec fn bracket_free(s: Seq<char>) -> bool {
    forall|k: int| 0 <= k < s.len() ==> !is_bracket(#[trigger] s[k])
}

/// `p` occurs nowhere in `t`.
pub open spec fn absent(t: Seq<char>, p: Seq<char>) -> bool {
    forall|k: int| !#[trigger] occurs_at(t, p, k)
}

/// Replacing `q` by a bracketed placeholder `r` leaves no occurrence of a
/// bracket-free `p` that `r` does not hold, provided every occurrence of `p`
/// in `t` is also an occurrence of `q`. Besides, the output up to its first
/// bracket is the input from `i` on.
proof fn lemma_replace_leaves_absent(t: Seq<char>, q: Seq<char>, r: Seq<char>, p: Seq<char>, i: int)
    requires
        0 <= i <= t.len(),
        q.len() > 0,
        p.len() > 0,
        bracket_free(p),
        r.len() > 0,
        is_bracket(r[0]),
        is_bracket(r[r.len() - 1]),
        absent(r, p),
        forall|k: int| occurs_at(t, p, k) ==> occurs_at(t, q, k),
    ensures
        absent(replace_from(t, q, r, i), p),
        forall|j: int|
            0 <= j <= replace_from(t, q, r, i).len() && bracket_free(#[trigger] replace_from(t, q, r, i).subrange(0, j))
                ==> i + j <= t.len() && replace_from(t, q, r, i).subrange(0, j) == t.subrange(i, i + j),
    decreases t.len() - i,
{
    let o = replace_from(t, q, r, i);
    if i >= t.len() {
        assert(o =~= Seq::<char>::empty());
        assert forall|k: int| !#[trigger] occurs_at(o, p, k) by {}
        assert forall|j: int|
            0 <= j <= o.len() && bracket_free(#[trigger] o.subrange(0, j)) implies i + j <= t.len() && o.subrange(0, j)
                == t.subrange(i, i + j) by {
            assert(o.subrange(0, j) =~= t.subrange(i, i + j));
        }
    } else if occurs_at(t, q, i) {
        let rest = replace_from(t, q, r, i + q.len());
        lemma_replace_leaves_absent(t, q, r, p, i + q.len());
        assert(o == r + rest);
        assert forall|k: int| !#[trigger] occurs_at(o, p, k) by {
            if occurs_at(o, p, k) {
                let w = o.subrange(k, k + p.len());
                if k + p.len() <= r.len() {
                    assert(r.subrange(k, k + p.len()) =~= w);
                    assert(occurs_at(r, p, k));
                } else if k < r.len() {
                    let d = r.len() - 1 - k;
                    assert(w[d] == o[r.len() - 1]);
                    assert(o[r.len() - 1] == r[r.len() - 1]);
                    assert(p[d] == w[d]);
                } else {
                    assert(rest.subrange(k - r.len(), k - r.len() + p.len()) =~= w);
                    assert(occurs_at(rest, p, k - r.len()));
                }
            }
        }
        assert forall|j: int|
            0 <= j <= o.len() && bracket_free(#[trigger] o.subrange(0, j)) implies i + j <= t.len() && o.subrange(0, j)
                == t.subrange(i, i + j) by {
            if j > 0 {
                assert(o.subrange(0, j)[0] == r[0]);
            } else {
                assert(o.subrange(0, j) =~= t.subrange(i, i + j));
            }
        }
    } else {
        let rest = replace_from(t, q, r, i + 1);
        lemma_replace_leaves_absent(t, q, r, p, i + 1);
        assert(o == seq![t[i]] + rest);
        assert forall|j: int|
            0 <= j <= o.len() && bracket_free(#[trigger] o.subrange(0, j)) implies i + j <= t.len() && o.subrange(0, j)
                == t.subrange(i, i + j) by {
            if j == 0 {
                assert(o.subrange(0, j) =~= t.subrange(i, i + j));
            } else {
                let tail = rest.subrange(0, j - 1);
                assert(tail =~= o.subrange(0, j).subrange(1, j));
                assert(bracket_free(tail)) by {
                    assert forall|k: int| 0 <= k < tail.len() implies !is_bracket(#[trigger] tail[k]) by {
                        assert(tail[k] == o.subrange(0, j)[k + 1]);
                    }
                }
                assert(i + 1 + (j - 1) <= t.len() && tail == t.subrange(i + 1, i + 1 + (j - 1)));
                assert(o.subrange(0, j) =~= t.subrange(i, i + j)) by {
                    assert forall|k: int| 0 <= k < j implies o.subrange(0, j)[k] == t.subrange(i, i + j)[k] by {
                        if k > 0 {
                            assert(o.subrange(0, j)[k] == tail[k - 1]);
                        }
                    }
                }
            }
        }
        assert forall|k: int| !#[trigger] occurs_at(o, p, k) by {
            if occurs_at(o, p, k) {
                if k == 0 {
                    let w = o.subrange(0, p.len() as int);
                    assert(w == p);
                    assert(bracket_free(w));
                    assert(i + p.len() <= t.len() && w == t.subrange(i, i + p.len()));
                    assert(occurs_at(t, p, i));
                } else {
                    assert(rest.subrange(k - 1, k - 1 + p.len()) =~= o.subrange(k, k + p.len()));
                    assert(occurs_at(rest, p, k - 1));
                }
            }
        }
    }
}

/// The conditions under which a known secret `p` can be said to be gone: it
/// is bracket-free, and neither placeholder holds it.
pub open spec fn redactable(p: Seq<char>) -> bool {
    &&& p.len() > 0
    &&& bracket_free(p)
    &&& absent(TOKEN_PLACEHOLDER@, p)
    &&& absent(GENERIC_PLACEHOLDER@, p)
}

proof fn lemma_token_placeholder_shape()
    ensures
        TOKEN_PLACEHOLDER@.len() > 0,
        is_bracket(TOKEN_PLACEHOLDER@[0]),
        is_bracket(TOKEN_PLACEHOLDER@[TOKEN_PLACEHOLDER@.len() - 1]),
        GENERIC_PLACEHOLDER@.len() > 0,
        is_bracket(GENERIC_PLACEHOLDER@[0]),
        is_bracket(GENERIC_PLACEHOLDER@[GENERIC_PLACEHOLDER@.len() - 1]),
{
    reveal_strlit("[redacted-token]");
    reveal_strlit("[redacted]");
}

proof fn lemma_known_fold_absent(t: Seq<char>, secrets: Seq<Seq<char>>, n: int, j: int)
    requires
        0 <= j < n <= secrets.len(),
        utf8_len(secrets[j]) >= 8,
        redactable(secrets[j]),
    ensures
        absent(known_fold(t, secrets, n), secrets[j]),
    decreases n,
{
    let p = secrets[j];
    let prev = known_fold(t, secrets, n - 1);
    let q = secrets[n - 1];
    lemma_token_placeholder_shape();
    if n - 1 > j {
        lemma_known_fold_absent(t, secrets, n - 1, j);
    }
    if utf8_len(q) >= 8 {
        if q.len() == 0 {
            assert(utf8_len(q) == 0);
        }
        lemma_replace_leaves_absent(prev, q, TOKEN_PLACEHOLDER@, p, 0);
    }
}

proof fn lemma_token_fold_keeps_absent(start: Seq<char>, ws: Seq<Seq<char>>, n: int, p: Seq<char>)
    requires
        n <= ws.len(),
        absent(start, p),
        redactable(p),
    ensures
        absent(token_fold(start, ws, n).0, p),
    decreases n,
{
    if n > 0 {
        lemma_token_fold_keeps_absent(start, ws, n - 1, p);
        let state = token_fold(start, ws, n - 1);
        let core = spec_trim_secret_punctuation(ws[n - 1]);
        if spec_looks_like_secret(core) && !state.1.contains(core) {
            lemma_token_placeholder_shape();
            lemma_replace_leaves_absent(state.0, core, GENERIC_PLACEHOLDER@, p, 0);
        }
    }
}

/// A known secret of at least eight bytes never survives redaction, wherever
/// it stood in the text: it is bracket-free and neither placeholder holds it.
pub proof fn law_known_secret_never_survives(text: Seq<char>, home: Option<Seq<char>>, secrets: Seq<String>, j: int)
    requires
        0 <= j < secrets.len(),
        utf8_len(secrets[j]@) >= 8,
        redactable(secrets[j]@),
    ensures
        absent(spec_redact(text, home, secrets), secrets[j]@),
{
    let p = secrets[j]@;
    let sv = secrets_view(secrets);
    assert(sv[j] == p);
    let known = spec_redact_known_secrets(spec_redact_home_dir(text, home), secrets);
    lemma_known_fold_absent(spec_redact_home_dir(text, home), sv, secrets.len() as int, j);
    lemma_token_fold_keeps_absent(known, words(known), words(known).len() as int, p);
}


proof fn lemma_secret_shaped_is_redactable(c: Seq<char>)
    requires
        spec_looks_like_secret(c),
    ensures
        redactable(c),
{
    reveal_strlit("[redacted-token]");
    reveal_strlit("[redacted]");
    assert(bracket_free(c)) by {
        assert forall|k: int| 0 <= k < c.len() implies !is_bracket(#[trigger] c[k]) by {
            assert(is_secret_char(c[k]));
        }
    }
    assert forall|k: int| !#[trigger] occurs_at(TOKEN_PLACEHOLDER@, c, k) by {}
    assert forall|k: int| !#[trigger] occurs_at(GENERIC_PLACEHOLDER@, c, k) by {}
}

/// What the heuristic pass has established after `n` words: every core it has
/// redacted is secret-shaped and gone from the text, and every secret-shaped
/// core among those words is one it has redacted.
pub open spec fn token_fold_done(state: (Seq<char>, Set<Seq<char>>), ws: Seq<Seq<char>>, n: int) -> bool {
    &&& forall|c: Seq<char>| #[trigger] state.1.contains(c) ==> spec_looks_like_secret(c) && absent(state.0, c)
    &&& forall|k: int|
        0 <= k < n && spec_looks_like_secret(spec_trim_secret_punctuation(#[trigger] ws[k])) ==> state.1.contains(
            spec_trim_secret_punctuation(ws[k]),
        )
}

proof fn lemma_token_fold_done(start: Seq<char>, ws: Seq<Seq<char>>, n: int)
    requires
        0 <= n <= ws.len(),
    ensures
        token_fold_done(token_fold(start, ws, n), ws, n),
    decreases n,
{
    if n > 0 {
        lemma_token_fold_done(start, ws, n - 1);
        let prev = token_fold(start, ws, n - 1);
        let core = spec_trim_secret_punctuation(ws[n - 1]);
        let next = token_fold(start, ws, n);
        if spec_looks_like_secret(core) && !prev.1.contains(core) {
            lemma_token_placeholder_shape();
            lemma_secret_shaped_is_redactable(core);
            assert forall|c: Seq<char>| #[trigger] next.1.contains(c) implies spec_looks_like_secret(c) && absent(
                next.0,
                c,
            ) by {
                lemma_secret_shaped_is_redactable(c);
                lemma_replace_leaves_absent(prev.0, core, GENERIC_PLACEHOLDER@, c, 0);
            }
        }
        assert forall|k: int|
            0 <= k < n && spec_looks_like_secret(spec_trim_secret_punctuation(#[trigger] ws[k])) implies next.1.contains(
            spec_trim_secret_punctuation(ws[k]),
        ) by {
            if k < n - 1 {
                assert(prev.1.contains(spec_trim_secret_punctuation(ws[k])));
            }
        }
    }
}

/// No secret-shaped word survives the heuristic pass: once a word of the text,
/// trimmed of wrapping punctuation, has the shape of a secret, that core occurs
/// nowhere in the result.
pub proof fn law_no_secret_shaped_word_survives(t: Seq<char>, k: int)
    requires
        0 <= k < words(t).len(),
        spec_looks_like_secret(spec_trim_secret_punctuation(words(t)[k])),
    ensures
        absent(spec_redact_token_like_words(t), spec_trim_secret_punctuation(words(t)[k])),
{
    lemma_token_fold_done(t, words(t), words(t).len() as int);
}

/// The same of a whole redaction: a secret-shaped word of the text the
/// heuristic pass reads (after the home directory and known secrets are
/// replaced) occurs nowhere in the report text.
pub proof fn law_redaction_leaves_no_secret_shaped_word(
    text: Seq<char>,
    home: Option<Seq<char>>,
    secrets: Seq<String>,
    k: int,
)
    requires
        0 <= k < words(spec_redact_known_secrets(spec_redact_home_dir(text, home), secrets)).len(),
        spec_looks_like_secret(
            spec_trim_secret_punctuation(words(spec_redact_known_secrets(spec_redact_home_dir(text, home), secrets))[k]),
        ),
    ensures
        absent(
            spec_redact(text, home, secrets),
            spec_trim_secret_punctuation(words(spec_redact_known_secrets(spec_redact_home_dir(text, home), secrets))[k]),
        ),
{
    law_no_secret_shaped_word_survives(spec_redact_known_secrets(spec_redact_home_dir(text, home), secrets), k);
}

} // verus!
