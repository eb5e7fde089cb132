//! IFC (ISO 10303-21) header parsing: project routing metadata and preview rows.
//!
//! Text is handled as characters. Quotes, parentheses, commas and `#` are ASCII,
//! so positions match the byte positions of the UTF-8 text; a STEP string body
//! is decoded byte by byte, each UTF-8 byte becoming the character of the same
//! code point.

use vstd::prelude::*;
use vstd::string::StringSliceAdditionalSpecFns;
use vstd::utf8::encode_utf8;
use crate::errors::BridgeError;
use crate::text::utf8_len;
use crate::text::{
    is_ws, char_is_ws, trim, trim_by, ws_pred, class_pred, CharClass, trim_vec, chars_of,
    string_of, slice_vec, cat, upper, upper_seq, char_upper, is_ascii_alnum, char_is_ascii_alnum,
    occurs_at, occurs_at_exec, trim_start_by, fmt_int, fmt_u64,
};

verus! {

// ---- byte-as-character decoding ------------------------------------------------

/// The UTF-8 bytes of `c`, each taken as the character with that code point.
pub open spec fn utf8_bytes_as_chars(c: char) -> Seq<char> {
    let u = c as u32;
    if u < 0x80 {
        seq![c]
    } else if u < 0x800 {
        seq![(0xC0 + u / 64) as char, (0x80 + u % 64) as char]
    } else if u < 0x10000 {
        seq![(0xE0 + u / 4096) as char, (0x80 + (u / 64) % 64) as char, (0x80 + u % 64) as char]
    } else {
        seq![
            (0xF0 + u / 262144) as char,
            (0x80 + (u / 4096) % 64) as char,
            (0x80 + (u / 64) % 64) as char,
            (0x80 + u % 64) as char,
        ]
    }
}

fn byte_char(b: u32) -> (c: char)
    requires
        b < 256,
    ensures
        c == b as char,
{
    let v: u8 = b as u8;
    v as char
}

fn push_utf8_bytes_as_chars(out: &mut Vec<char>, c: char)
    ensures
        final(out)@ == old(out)@ + utf8_bytes_as_chars(c),
{
    let u = c as u32;
    proof {
        assert(u <= 0x10FFFF);
    }
    if u < 0x80 {
        out.push(c);
    } else if u < 0x800 {
        out.push(byte_char(0xC0 + u / 64));
        out.push(byte_char(0x80 + u % 64));
    } else if u < 0x10000 {
        out.push(byte_char(0xE0 + u / 4096));
        out.push(byte_char(0x80 + (u / 64) % 64));
        out.push(byte_char(0x80 + u % 64));
    } else {
        out.push(byte_char(0xF0 + u / 262144));
        out.push(byte_char(0x80 + (u / 4096) % 64));
        out.push(byte_char(0x80 + (u / 64) % 64));
        out.push(byte_char(0x80 + u % 64));
    }
    proof {
        assert(final(out)@ =~= old(out)@ + utf8_bytes_as_chars(c));
    }
}

// ---- STEP strings -----------------------------------------------------------------

/// Decodes a STEP string body starting at `i` (just after the opening quote):
/// `''` is a quote, a lone `'` ends the string. Returns the value and the
/// index just past the closing quote.
pub open spec fn string_body(t: Seq<char>, i: int) -> Option<(Seq<char>, int)>
    decreases t.len() - i,
{
    if i < 0 || i >= t.len() {
        None
    } else if t[i] == '\'' && i + 1 < t.len() && t[i + 1] == '\'' {
        match string_body(t, i + 2) {
            Some((v, n)) => Some((seq!['\''] + v, n)),
            None => None,
        }
    } else if t[i] == '\'' {
        Some((Seq::empty(), i + 1))
    } else {
        match string_body(t, i + 1) {
            Some((v, n)) => Some((utf8_bytes_as_chars(t[i]) + v, n)),
            None => None,
        }
    }
}

/// A STEP string starting at `start` (which must be a quote).
pub open spec fn spec_step_string_at(t: Seq<char>, start: int) -> Option<(Seq<char>, int)> {
    if 0 <= start < t.len() && t[start] == '\'' {
        string_body(t, start + 1)
    } else {
        None
    }
}

proof fn lemma_string_body_end(t: Seq<char>, i: int)
    ensures
        string_body(t, i) matches Some((v, n)) ==> i < n <= t.len(),
    decreases t.len() - i,
{
    if 0 <= i < t.len() {
        if t[i] == '\'' && i + 1 < t.len() && t[i + 1] == '\'' {
            lemma_string_body_end(t, i + 2);
        } else if t[i] != '\'' {
            lemma_string_body_end(t, i + 1);
        }
    }
}

pub fn parse_step_string_at(text: &Vec<char>, start: usize) -> (r: Option<(Vec<char>, usize)>)
    ensures
        match r {
            None => spec_step_string_at(text@, start as int) is None,
            Some((v, n)) => spec_step_string_at(text@, start as int) == Some((v@, n as int)),
        },
{
    if start >= text.len() || text[start] != '\'' {
        return None;
    }
    let mut out: Vec<char> = Vec::new();
    let mut i: usize = start + 1;
    while i < text.len()
        invariant
            start < i <= text.len(),
            start < text.len(),
            text@[start as int] == '\'',
            forall|v: Seq<char>, n: int|
                string_body(text@, i as int) == Some((v, n)) ==> #[trigger] string_body(
                    text@,
                    start + 1,
                ) == Some((out@ + v, n)),
            string_body(text@, i as int) is None ==> string_body(text@, start + 1) is None,
        decreases text.len() - i,
    {
        let c = text[i];
        if c == '\'' && i + 1 < text.len() && text[i + 1] == '\'' {
            let ghost before = out@;
            out.push('\'');
            proof {
                assert forall|v: Seq<char>, n: int|
                    string_body(text@, i + 2) == Some((v, n)) implies #[trigger] string_body(
                    text@,
                    start + 1,
                ) == Some((out@ + v, n)) by {
                    assert(string_body(text@, i as int) == Some((seq!['\''] + v, n)));
                    assert(before + (seq!['\''] + v) =~= out@ + v);
                }
            }
            i = i + 2;
        } else if c == '\'' {
            proof {
                assert(string_body(text@, i as int) == Some((Seq::<char>::empty(), i + 1)));
                assert(out@ + Seq::<char>::empty() =~= out@);
            }
            return Some((out, i + 1));
        } else {
            let ghost before = out@;
            push_utf8_bytes_as_chars(&mut out, c);
            proof {
                assert forall|v: Seq<char>, n: int|
                    string_body(text@, i + 1) == Some((v, n)) implies #[trigger] string_body(
                    text@,
                    start + 1,
                ) == Some((out@ + v, n)) by {
                    assert(string_body(text@, i as int) == Some((utf8_bytes_as_chars(c) + v, n)));
                    assert(before + (utf8_bytes_as_chars(c) + v) =~= out@ + v);
                }
            }
            i = i + 1;
        }
    }
    None
}

/// A STEP string value: the trimmed text must start with a quote.
pub open spec fn spec_parse_step_string(t: Seq<char>) -> Option<Seq<char>> {
    match spec_step_string_at(trim(t), 0) {
        Some((v, _)) => Some(v),
        None => None,
    }
}

pub fn parse_step_string_chars(text: &Vec<char>) -> (r: Option<Vec<char>>)
    ensures
        match r {
            None => spec_parse_step_string(text@) is None,
            Some(v) => spec_parse_step_string(text@) == Some(v@),
        },
{
    let trimmed = trim_vec(text, &CharClass::Whitespace);
    proof {
        assert(class_pred(CharClass::Whitespace) == ws_pred());
    }
    match parse_step_string_at(&trimmed, 0) {
        Some((v, _)) => Some(v),
        None => None,
    }
}

/// Parse a quoted STEP string (`'Bob''s Tower'` is `Bob's Tower`).
pub fn parse_step_string(text: &str) -> (r: Option<String>)
    ensures
        match r {
            None => spec_parse_step_string(text@) is None,
            Some(v) => spec_parse_step_string(text@) == Some(v@),
        },
{
    match parse_step_string_chars(&chars_of(text)) {
        Some(v) => Some(string_of(&v)),
        None => None,
    }
}

/// Every STEP string in `t[i..]`, scanning left to right; a quote that does not
/// open a complete string is skipped.
pub open spec fn string_list_from(t: Seq<char>, i: int) -> Seq<Seq<char>>
    decreases t.len() - i,
{
    if i < 0 || i >= t.len() {
        Seq::empty()
    } else if t[i] == '\'' {
        match spec_step_string_at(t, i) {
            Some((v, n)) => if i < n <= t.len() {
                seq![v] + string_list_from(t, n)
            } else {
                string_list_from(t, i + 1)
            },
            None => string_list_from(t, i + 1),
        }
    } else {
        string_list_from(t, i + 1)
    }
}

pub open spec fn spec_parse_string_list(t: Seq<char>) -> Seq<Seq<char>> {
    string_list_from(t, 0)
}

pub fn parse_string_list_chars(text: &Vec<char>) -> (r: Vec<Vec<char>>)
    ensures
        r@.len() == spec_parse_string_list(text@).len(),
        forall|k: int| 0 <= k < r@.len() ==> (#[trigger] r@[k])@ == spec_parse_string_list(text@)[k],
{
    let mut out: Vec<Vec<char>> = Vec::new();
    let mut i: usize = 0;
    while i < text.len()
        invariant
            i <= text.len(),
            out@.len() + string_list_from(text@, i as int).len() == spec_parse_string_list(text@).len(),
            forall|k: int| 0 <= k < out@.len() ==> (#[trigger] out@[k])@ == spec_parse_string_list(text@)[k],
            forall|k: int|
                0 <= k < string_list_from(text@, i as int).len() ==> spec_parse_string_list(text@)[out@.len() + k]
                    == #[trigger] string_list_from(text@, i as int)[k],
        decreases text.len() - i,
    {
        if text[i] == '\'' {
            match parse_step_string_at(text, i) {
                Some((value, next)) => {
                    proof {
                        lemma_string_body_end(text@, i + 1);
                        let rest = string_list_from(text@, next as int);
                        let here = string_list_from(text@, i as int);
                        assert(here == seq![value@] + rest);
                        assert forall|k: int| 0 <= k < rest.len() implies spec_parse_string_list(
                            text@,
                        )[out@.len() + 1 + k] == #[trigger] rest[k] by {
                            assert(here[k + 1] == rest[k]);
                        }
                        assert(here[0] == value@);
                    }
                    out.push(value);
                    i = next;
                    continue ;
                },
                None => {},
            }
        }
        i = i + 1;
    }
    out
}

/// All STEP strings in a list argument such as `('a','b')`.
pub fn parse_string_list(text: &str) -> (r: Vec<String>)
    ensures
        r@.len() == spec_parse_string_list(text@).len(),
        forall|k: int| 0 <= k < r@.len() ==> (#[trigger] r@[k])@ == spec_parse_string_list(text@)[k],
{
    let v = parse_string_list_chars(&chars_of(text));
    let mut out: Vec<String> = Vec::new();
    let mut k: usize = 0;
    while k < v.len()
        invariant
            k <= v.len(),
            out@.len() == k,
            forall|j: int| 0 <= j < k ==> (#[trigger] out@[j])@ == v@[j]@,
        decreases v.len() - k,
    {
        out.push(string_of(&v[k]));
        k = k + 1;
    }
    out
}

// ---- parentheses and argument lists -----------------------------------------------

/// Scans for the `)` closing the group opened before `i`, tracking nesting depth
/// and STEP strings (where `''` is an escaped quote).
pub open spec fn bal_scan(t: Seq<char>, i: int, depth: nat, in_str: bool) -> Option<int>
    decreases t.len() - i,
{
    if i < 0 || i >= t.len() {
        None
    } else if t[i] == '\'' {
        if in_str && i + 1 < t.len() && t[i + 1] == '\'' {
            bal_scan(t, i + 2, depth, in_str)
        } else {
            bal_scan(t, i + 1, depth, !in_str)
        }
    } else if t[i] == '(' && !in_str {
        bal_scan(t, i + 1, depth + 1, in_str)
    } else if t[i] == ')' && !in_str {
        let d: nat = if depth > 0 {
            (depth - 1) as nat
        } else {
            0
        };
        if d == 0 {
            Some(i)
        } else {
            bal_scan(t, i + 1, d, in_str)
        }
    } else {
        bal_scan(t, i + 1, depth, in_str)
    }
}

/// The text inside the parenthesised group that `t` starts with.
pub open spec fn spec_balanced_parens(t: Seq<char>) -> Option<Seq<char>> {
    if t.len() == 0 || t[0] != '(' {
        None
    } else {
        match bal_scan(t, 0, 0, false) {
            Some(e) => Some(t.subrange(1, e)),
            None => None,
        }
    }
}

proof fn lemma_bal_scan_range(t: Seq<char>, i: int, depth: nat, in_str: bool)
    ensures
        bal_scan(t, i, depth, in_str) matches Some(e) ==> i <= e < t.len(),
    decreases t.len() - i,
{
    if 0 <= i < t.len() {
        if t[i] == '\'' {
            if in_str && i + 1 < t.len() && t[i + 1] == '\'' {
                lemma_bal_scan_range(t, i + 2, depth, in_str);
            } else {
                lemma_bal_scan_range(t, i + 1, depth, !in_str);
            }
        } else if t[i] == '(' && !in_str {
            lemma_bal_scan_range(t, i + 1, depth + 1, in_str);
        } else if t[i] == ')' && !in_str {
            let d: nat = if depth > 0 {
                (depth - 1) as nat
            } else {
                0
            };
            if d != 0 {
                lemma_bal_scan_range(t, i + 1, d, in_str);
            }
        } else {
            lemma_bal_scan_range(t, i + 1, depth, in_str);
        }
    }
}

pub fn balanced_parens_chars(text: &Vec<char>) -> (r: Option<Vec<char>>)
    ensures
        match r {
            None => spec_balanced_parens(text@) is None,
            Some(v) => spec_balanced_parens(text@) == Some(v@),
        },
{
    if text.len() == 0 || text[0] != '(' {
        return None;
    }
    let mut depth: usize = 0;
    let mut in_string = false;
    let mut i: usize = 0;
    while i < text.len()
        invariant
            i <= text.len(),
            depth <= i,
            text.len() > 0 && text@[0] == '(',
            bal_scan(text@, 0, 0, false) == bal_scan(text@, i as int, depth as nat, in_string),
        decreases text.len() - i,
    {
        let c = text[i];
        if c == '\'' {
            if in_string && i + 1 < text.len() && text[i + 1] == '\'' {
                i = i + 2;
                continue ;
            }
            in_string = !in_string;
        } else if c == '(' && !in_string {
            depth = depth + 1;
        } else if c == ')' && !in_string {
            depth = if depth > 0 {
                depth - 1
            } else {
                0
            };
            if depth == 0 {
                proof {
                    lemma_bal_scan_range(text@, 0, 0, false);
                }
                return Some(slice_vec(text, 1, i));
            }
        }
        i = i + 1;
    }
    None
}

/// Pieces of `t` split at top-level commas (outside strings and parentheses),
/// each trimmed; `start` is where the current piece began.
pub open spec fn split_scan(t: Seq<char>, i: int, depth: nat, in_str: bool, start: int) -> Seq<Seq<char>>
    decreases t.len() - i,
{
    if i < 0 || i >= t.len() || start < 0 || start > i {
        if 0 <= start <= t.len() {
            seq![trim(t.subrange(start, t.len() as int))]
        } else {
            Seq::empty()
        }
    } else if t[i] == '\'' {
        if in_str && i + 1 < t.len() && t[i + 1] == '\'' {
            split_scan(t, i + 2, depth, in_str, start)
        } else {
            split_scan(t, i + 1, depth, !in_str, start)
        }
    } else if t[i] == '(' && !in_str {
        split_scan(t, i + 1, depth + 1, in_str, start)
    } else if t[i] == ')' && !in_str {
        split_scan(t, i + 1, if depth > 0 {
            (depth - 1) as nat
        } else {
            0
        }, in_str, start)
    } else if t[i] == ',' && !in_str && depth == 0 {
        seq![trim(t.subrange(start, i))] + split_scan(t, i + 1, depth, in_str, i + 1)
    } else {
        split_scan(t, i + 1, depth, in_str, start)
    }
}

pub open spec fn spec_split_top_level_args(t: Seq<char>) -> Seq<Seq<char>> {
    split_scan(t, 0, 0, false, 0)
}

pub fn split_top_level_args_chars(text: &Vec<char>) -> (r: Vec<Vec<char>>)
    ensures
        r@.len() == spec_split_top_level_args(text@).len(),
        forall|k: int|
            0 <= k < r@.len() ==> (#[trigger] r@[k])@ == spec_split_top_level_args(text@)[k],
{
    let ghost all = spec_split_top_level_args(text@);
    let mut out: Vec<Vec<char>> = Vec::new();
    let mut start: usize = 0;
    let mut depth: usize = 0;
    let mut in_string = false;
    let mut i: usize = 0;
    while i < text.len()
        invariant
            start <= i <= text.len(),
            depth <= i,
            all == spec_split_top_level_args(text@),
            out@.len() + split_scan(text@, i as int, depth as nat, in_string, start as int).len()
                == all.len(),
            forall|k: int| 0 <= k < out@.len() ==> (#[trigger] out@[k])@ == all[k],
            forall|k: int|
                0 <= k < split_scan(text@, i as int, depth as nat, in_string, start as int).len()
                    ==> all[out@.len() + k] == #[trigger] split_scan(
                    text@,
                    i as int,
                    depth as nat,
                    in_string,
                    start as int,
                )[k],
        decreases text.len() - i,
    {
        let c = text[i];
        if c == '\'' {
            if in_string && i + 1 < text.len() && text[i + 1] == '\'' {
                i = i + 2;
                continue ;
            }
            in_string = !in_string;
        } else if c == '(' && !in_string {
            depth = depth + 1;
        } else if c == ')' && !in_string {
            depth = if depth > 0 {
                depth - 1
            } else {
                0
            };
        } else if c == ',' && !in_string && depth == 0 {
            let piece = trim_vec(&slice_vec(text, start, i), &CharClass::Whitespace);
            proof {
                assert(class_pred(CharClass::Whitespace) == ws_pred());
                let here = split_scan(text@, i as int, depth as nat, in_string, start as int);
                let rest = split_scan(text@, i + 1, depth as nat, in_string, i + 1);
                assert(here == seq![trim(text@.subrange(start as int, i as int))] + rest);
                assert(here[0] == piece@);
                assert forall|k: int| 0 <= k < rest.len() implies all[out@.len() + 1 + k]
                    == #[trigger] rest[k] by {
                    assert(here[k + 1] == rest[k]);
                }
            }
            out.push(piece);
            start = i + 1;
        }
        i = i + 1;
    }
    let last = trim_vec(&slice_vec(text, start, text.len()), &CharClass::Whitespace);
    proof {
        assert(class_pred(CharClass::Whitespace) == ws_pred());
        let here = split_scan(text@, i as int, depth as nat, in_string, start as int);
        assert(here == seq![trim(text@.subrange(start as int, text@.len() as int))]);
        assert(here[0] == last@);
    }
    out.push(last);
    out
}

/// Split a STEP argument list at its top-level commas.
pub fn split_top_level_args(text: &str) -> (r: Vec<String>)
    ensures
        r@.len() == spec_split_top_level_args(text@).len(),
        forall|k: int|
            0 <= k < r@.len() ==> (#[trigger] r@[k])@ == spec_split_top_level_args(text@)[k],
{
    let v = split_top_level_args_chars(&chars_of(text));
    let mut out: Vec<String> = Vec::new();
    let mut k: usize = 0;
    while k < v.len()
        invariant
            k <= v.len(),
            out@.len() == k,
            forall|j: int| 0 <= j < k ==> (#[trigger] out@[j])@ == v@[j]@,
        decreases v.len() - k,
    {
        out.push(string_of(&v[k]));
        k = k + 1;
    }
    out
}

/// `text` with every ASCII lowercase letter upper-cased.
pub fn upper_vec(t: &Vec<char>) -> (r: Vec<char>)
    ensures
        r@ == upper_seq(t@),
{
    let mut r: Vec<char> = Vec::new();
    let mut i: usize = 0;
    while i < t.len()
        invariant
            i <= t.len(),
            r@ == upper_seq(t@.subrange(0, i as int)),
        decreases t.len() - i,
    {
        r.push(char_upper(t[i]));
        i = i + 1;
        proof {
            assert(r@ =~= upper_seq(t@.subrange(0, i as int)));
        }
    }
    proof {
        assert(t@.subrange(0, i as int) =~= t@);
    }
    r
}

// ---- call lookup -----------------------------------------------------------------

/// First position `>= from` where `p` occurs in `t`.
pub open spec fn first_occurrence(t: Seq<char>, p: Seq<char>, from: int) -> Option<int>
    decreases t.len() + 1 - from,
{
    if from < 0 || from + p.len() > t.len() {
        None
    } else if occurs_at(t, p, from) {
        Some(from)
    } else {
        first_occurrence(t, p, from + 1)
    }
}

/// Skips spaces, tabs, carriage returns and line feeds.
pub open spec fn skip_blanks(t: Seq<char>, i: int) -> int
    decreases t.len() - i,
{
    if 0 <= i < t.len() && (t[i] == ' ' || t[i] == '\t' || t[i] == '\r' || t[i] == '\n') {
        skip_blanks(t, i + 1)
    } else {
        i
    }
}

/// `name` is a call at `start` in the upper-cased text: not preceded by an
/// identifier character and followed (after blanks) by `(`.
pub open spec fn call_at(u: Seq<char>, start: int, len: int) -> bool {
    (start == 0 || (!is_ascii_alnum(u[start - 1]) && u[start - 1] != '_')) && 0 <= skip_blanks(
        u,
        start + len,
    ) < u.len() && u[skip_blanks(u, start + len)] == '('
}

/// Searches the upper-cased text `u` (of `t`) for the call `needle` from `from`;
/// gives the argument text of the first real call found.
pub open spec fn call_args_from(t: Seq<char>, u: Seq<char>, needle: Seq<char>, from: int) -> Option<
    Seq<char>,
>
    decreases t.len() - from,
{
    if needle.len() == 0 || from < 0 || from > t.len() {
        None
    } else {
        match first_occurrence(u, needle, from) {
            None => None,
            Some(start) => if start < from || start + needle.len() > t.len() || u.len() != t.len() {
                None
            } else if call_at(u, start, needle.len() as int) && skip_blanks(u, start + needle.len())
                <= t.len() {
                spec_balanced_parens(t.subrange(skip_blanks(u, start + needle.len()), t.len() as int))
            } else {
                call_args_from(t, u, needle, start + needle.len())
            },
        }
    }
}

/// The argument text of the first `name(...)` call in `t`, matched case-insensitively.
pub open spec fn spec_find_call_args(t: Seq<char>, name: Seq<char>) -> Option<Seq<char>> {
    call_args_from(t, upper_seq(t), upper_seq(name), 0)
}

proof fn lemma_first_occurrence(t: Seq<char>, p: Seq<char>, from: int)
    ensures
        first_occurrence(t, p, from) matches Some(s) ==> from <= s && s + p.len() <= t.len()
            && occurs_at(t, p, s),
    decreases t.len() + 1 - from,
{
    if !(from < 0 || from + p.len() > t.len()) && !occurs_at(t, p, from) {
        lemma_first_occurrence(t, p, from + 1);
    }
}

proof fn lemma_skip_blanks(t: Seq<char>, i: int)
    requires
        0 <= i,
    ensures
        i <= skip_blanks(t, i),
        i <= t.len() ==> skip_blanks(t, i) <= t.len(),
    decreases t.len() - i,
{
    if 0 <= i < t.len() && (t[i] == ' ' || t[i] == '\t' || t[i] == '\r' || t[i] == '\n') {
        lemma_skip_blanks(t, i + 1);
    }
}

fn find_from(t: &Vec<char>, p: &Vec<char>, from: usize) -> (r: Option<usize>)
    requires
        p.len() > 0,
    ensures
        match r {
            None => first_occurrence(t@, p@, from as int) is None,
            Some(s) => first_occurrence(t@, p@, from as int) == Some(s as int),
        },
{
    let mut i = from;
    while i <= t.len() && p.len() <= t.len() - i
        invariant
            from <= i,
            p.len() > 0,
            first_occurrence(t@, p@, from as int) == first_occurrence(t@, p@, i as int),
        decreases t.len() + 1 - i,
    {
        if occurs_at_exec(t, p, i) {
            return Some(i);
        }
        i = i + 1;
    }
    None
}

pub fn find_call_args_chars(text: &Vec<char>, name: &Vec<char>) -> (r: Option<Vec<char>>)
    ensures
        match r {
            None => spec_find_call_args(text@, name@) is None,
            Some(v) => spec_find_call_args(text@, name@) == Some(v@),
        },
{
    let u = upper_vec(text);
    let needle = upper_vec(name);
    if needle.len() == 0 {
        return None;
    }
    let mut search_from: usize = 0;
    while search_from <= text.len()
        invariant
            u@ == upper_seq(text@),
            u@.len() == text@.len(),
            needle@ == upper_seq(name@),
            needle.len() > 0,
            call_args_from(text@, u@, needle@, search_from as int) == spec_find_call_args(
                text@,
                name@,
            ),
        decreases text.len() + 1 - search_from,
    {
        let start = match find_from(&u, &needle, search_from) {
            None => {
                return None;
            },
            Some(s) => s,
        };
        proof {
            lemma_first_occurrence(u@, needle@, search_from as int);
        }
        let before_ok = start == 0 || (!char_is_ascii_alnum(u[start - 1]) && u[start - 1] != '_');
        let mut cursor = start + needle.len();
        proof {
            lemma_skip_blanks(u@, cursor as int);
        }
        while cursor < u.len() && (u[cursor] == ' ' || u[cursor] == '\t' || u[cursor] == '\r'
            || u[cursor] == '\n')
            invariant
                cursor <= u.len(),
                skip_blanks(u@, start + needle@.len()) == skip_blanks(u@, cursor as int),
            decreases u.len() - cursor,
        {
            cursor = cursor + 1;
        }
        if before_ok && cursor < u.len() && u[cursor] == '(' {
            let rest = slice_vec(text, cursor, text.len());
            return balanced_parens_chars(&rest);
        }
        search_from = start + needle.len();
    }
    None
}

/// Argument text of the first `name(...)` call, found case-insensitively.
pub fn find_call_args(text: &str, name: &str) -> (r: Option<String>)
    ensures
        match r {
            None => spec_find_call_args(text@, name@) is None,
            Some(v) => spec_find_call_args(text@, name@) == Some(v@),
        },
{
    match find_call_args_chars(&chars_of(text), &chars_of(name)) {
        Some(v) => Some(string_of(&v)),
        None => None,
    }
}

// ---- entity lines ----------------------------------------------------------------

/// Lines of `t[i..]` whose first non-whitespace character is `#`; `leading`
/// holds while only whitespace has been seen on the current line.
pub open spec fn hash_lines_from(t: Seq<char>, i: int, leading: bool) -> nat
    decreases t.len() - i,
{
    if i < 0 || i >= t.len() {
        0
    } else if t[i] == '\n' {
        hash_lines_from(t, i + 1, true)
    } else if leading && is_ws(t[i]) {
        hash_lines_from(t, i + 1, true)
    } else if leading && t[i] == '#' {
        1 + hash_lines_from(t, i + 1, false)
    } else {
        hash_lines_from(t, i + 1, false)
    }
}

/// Number of lines that start (after whitespace) with `#`: the entity instances.
pub open spec fn spec_count_entity_starts(t: Seq<char>) -> nat {
    hash_lines_from(t, 0, true)
}

proof fn lemma_hash_lines_bound(t: Seq<char>, i: int, leading: bool)
    requires
        0 <= i <= t.len(),
    ensures
        hash_lines_from(t, i, leading) <= t.len() - i,
    decreases t.len() - i,
{
    if i < t.len() {
        lemma_hash_lines_bound(t, i + 1, true);
        lemma_hash_lines_bound(t, i + 1, false);
    }
}

pub fn count_entity_starts(text: &Vec<char>) -> (r: usize)
    ensures
        r == spec_count_entity_starts(text@),
{
    let mut count: usize = 0;
    let mut leading = true;
    let mut i: usize = 0;
    proof {
        lemma_hash_lines_bound(text@, 0, true);
    }
    while i < text.len()
        invariant
            i <= text.len(),
            count + hash_lines_from(text@, i as int, leading) == spec_count_entity_starts(text@),
            spec_count_entity_starts(text@) <= text.len(),
            hash_lines_from(text@, i as int, leading) <= text.len() - i,
        decreases text.len() - i,
    {
        let c = text[i];
        proof {
            lemma_hash_lines_bound(text@, i + 1, true);
            lemma_hash_lines_bound(text@, i + 1, false);
        }
        if c == '\n' {
            leading = true;
        } else if leading && char_is_ws(c) {
            leading = true;
        } else if leading && c == '#' {
            count = count + 1;
            leading = false;
        } else {
            leading = false;
        }
        i = i + 1;
    }
    count
}

// ---- intake metadata ----------------------------------------------------------------

/// Routing metadata read from an IFC header.
#[derive(Debug, Clone, PartialEq, Eq)]
pub struct IfcIntake {
    pub description: Option<String>,
    pub project_guid: Option<String>,
    pub project_name: Option<String>,
    pub author: Option<String>,
    pub originating_system: Option<String>,
    pub approximate_entity_count: usize,
}

pub open spec fn opt_view(o: Option<String>) -> Option<Seq<char>> {
    match o {
        Some(s) => Some(s@),
        None => None,
    }
}

pub open spec fn first_of(s: Seq<Seq<char>>) -> Option<Seq<char>> {
    if s.len() > 0 {
        Some(s[0])
    } else {
        None
    }
}

/// The part at `k` of the top-level arguments of the call `name`, if any.
pub open spec fn call_part(t: Seq<char>, name: Seq<char>, k: int) -> Option<Seq<char>> {
    match spec_find_call_args(t, name) {
        None => None,
        Some(args) => {
            let parts = spec_split_top_level_args(args);
            if 0 <= k < parts.len() {
                Some(parts[k])
            } else {
                None
            }
        },
    }
}

pub open spec fn string_at(part: Option<Seq<char>>) -> Option<Seq<char>> {
    match part {
        Some(p) => spec_parse_step_string(p),
        None => None,
    }
}

pub open spec fn first_listed(part: Option<Seq<char>>) -> Option<Seq<char>> {
    match part {
        Some(p) => first_of(spec_parse_string_list(p)),
        None => None,
    }
}

/// The header fields: the first `FILE_DESCRIPTION` description, the first
/// `FILE_NAME` author and its originating system (sixth argument), and the
/// `IFCPROJECT` GlobalId (first argument) and name (third argument).
pub open spec fn intake_matches(r: IfcIntake, t: Seq<char>) -> bool {
    &&& r.approximate_entity_count == spec_count_entity_starts(t)
    &&& opt_view(r.description) == first_listed(call_part(t, "FILE_DESCRIPTION"@, 0))
    &&& opt_view(r.author) == first_listed(call_part(t, "FILE_NAME"@, 2))
    &&& opt_view(r.originating_system) == string_at(call_part(t, "FILE_NAME"@, 5))
    &&& opt_view(r.project_guid) == string_at(call_part(t, "IFCPROJECT"@, 0))
    &&& opt_view(r.project_name) == string_at(call_part(t, "IFCPROJECT"@, 2))
}

fn part_of(t: &Vec<char>, name: &str, k: usize) -> (r: Option<Vec<char>>)
    ensures
        match r {
            None => call_part(t@, name@, k as int) is None,
            Some(p) => call_part(t@, name@, k as int) == Some(p@),
        },
{
    match find_call_args_chars(t, &chars_of(name)) {
        None => None,
        Some(args) => {
            let parts = split_top_level_args_chars(&args);
            if k < parts.len() {
                Some(slice_vec(&parts[k], 0, parts[k].len()))
            } else {
                None
            }
        },
    }
}

fn string_at_exec(part: Option<Vec<char>>) -> (r: Option<String>)
    ensures
        opt_view(r) == string_at(
            match part {
                Some(p) => Some(p@),
                None => None,
            },
        ),
{
    match part {
        Some(p) => match parse_step_string_chars(&p) {
            Some(v) => Some(string_of(&v)),
            None => None,
        },
        None => None,
    }
}

fn first_listed_exec(part: Option<Vec<char>>) -> (r: Option<String>)
    ensures
        opt_view(r) == first_listed(
            match part {
                Some(p) => Some(p@),
                None => None,
            },
        ),
{
    match part {
        Some(p) => {
            let list = parse_string_list_chars(&p);
            if list.len() > 0 {
                Some(string_of(&list[0]))
            } else {
                None
            }
        },
        None => None,
    }
}

/// Header metadata of IFC text; `None` when the text is blank.
pub fn intake_from_text(text: &str) -> (r: Option<IfcIntake>)
    ensures
        r is None <==> trim(text@).len() == 0,
        r matches Some(i) ==> intake_matches(i, text@),
{
    if crate::text::is_blank(text) {
        return None;
    }
    let t = chars_of(text);
    let description = first_listed_exec(part_of(&t, "FILE_DESCRIPTION", 0));
    let author = first_listed_exec(part_of(&t, "FILE_NAME", 2));
    let originating_system = string_at_exec(part_of(&t, "FILE_NAME", 5));
    let project_guid = string_at_exec(part_of(&t, "IFCPROJECT", 0));
    let project_name = string_at_exec(part_of(&t, "IFCPROJECT", 2));
    Some(
        IfcIntake {
            description,
            project_guid,
            project_name,
            author,
            originating_system,
            approximate_entity_count: count_entity_starts(&t),
        },
    )
}

/// Reading can stop once the text holds both `IFCPROJECT` and `ENDSEC;`
/// (case-insensitively).
pub fn header_complete(text: &str) -> (r: bool)
    ensures
        r == (first_occurrence(upper_seq(text@), "IFCPROJECT"@, 0) is Some && first_occurrence(
            upper_seq(text@),
            "ENDSEC;"@,
            0,
        ) is Some),
{
    let u = upper_vec(&chars_of(text));
    let a = chars_of("IFCPROJECT");
    let b = chars_of("ENDSEC;");
    proof {
        reveal_strlit("IFCPROJECT");
        reveal_strlit("ENDSEC;");
    }
    find_from(&u, &a, 0).is_some() && find_from(&u, &b, 0).is_some()
}

/// Lines read from an export before giving up on finding its header.
pub const MAX_INTAKE_LINES: usize = 4096;
/// Bytes read from an export before giving up on finding its header.
pub const MAX_INTAKE_BYTES: u64 = 1_048_576;

pub open spec fn header_done(text: Seq<char>) -> bool {
    first_occurrence(upper_seq(text), "IFCPROJECT"@, 0) is Some && first_occurrence(upper_seq(text), "ENDSEC;"@, 0) is Some
}

/// Reads the head of an export line by line until its header is complete,
/// the file ends, or a line or byte limit is reached.
#[derive(Debug, Clone, PartialEq, Eq)]
pub struct IntakeReader {
    pub text: String,
    pub bytes: u64,
    pub lines: usize,
    pub done: bool,
}

pub open spec fn reader_wf(r: IntakeReader) -> bool {
    r.bytes <= MAX_INTAKE_BYTES && r.lines <= MAX_INTAKE_LINES
}

impl IntakeReader {
    pub fn new() -> (r: IntakeReader)
        ensures
            reader_wf(r),
            r.text@ == Seq::<char>::empty(),
            r.bytes == 0,
            r.lines == 0,
            !r.done,
    {
        IntakeReader { text: String::new(), bytes: 0, lines: 0, done: false }
    }

    /// Whether another line should be read.
    pub fn wants_more(&self) -> (r: bool)
        ensures
            r == (!self.done && self.lines < MAX_INTAKE_LINES),
    {
        !self.done && self.lines < MAX_INTAKE_LINES
    }

    /// Take the next line as read, terminator included; an empty line means the
    /// file ended. A line that would pass the byte limit is not kept.
    pub fn feed(&mut self, line: &str)
        requires
            reader_wf(*old(self)),
            !old(self).done && old(self).lines < MAX_INTAKE_LINES,
        ensures
            reader_wf(*final(self)),
            final(self).lines == old(self).lines + 1,
            line@.len() == 0 ==> final(self).done && final(self).text == old(self).text,
            line@.len() > 0 && old(self).bytes + utf8_len(line@) > MAX_INTAKE_BYTES ==> final(self).done
                && final(self).text == old(self).text,
            line@.len() > 0 && old(self).bytes + utf8_len(line@) <= MAX_INTAKE_BYTES ==> final(self).text@
                == old(self).text@ + line@ && final(self).bytes == old(self).bytes + utf8_len(line@)
                && final(self).done == header_done(old(self).text@ + line@),
    {
        self.lines = self.lines + 1;
        let v = chars_of(line);
        if v.len() == 0 {
            self.done = true;
            return;
        }
        let n = crate::text::utf8_len_of(&v);
        if n > MAX_INTAKE_BYTES - self.bytes {
            self.done = true;
            return;
        }
        self.bytes = self.bytes + n;
        let joined = cat(&chars_of(self.text.as_str()), &v);
        self.text = string_of(&joined);
        self.done = header_complete(self.text.as_str());
    }

    /// The header metadata read, or an error naming the file when nothing but
    /// blank text was read.
    pub fn finish(&self, path_display: &str) -> (r: Result<IfcIntake, BridgeError>)
        ensures
            match r {
                Ok(i) => trim(self.text@).len() > 0 && intake_matches(i, self.text@),
                Err(e) => trim(self.text@).len() == 0 && (e matches BridgeError::Config(m) && m@ == path_display@
                    + " is empty or unreadable as IFC"@),
            },
    {
        match intake_from_text(self.text.as_str()) {
            Some(i) => Ok(i),
            None => Err(
                BridgeError::Config(string_of(&cat(&chars_of(path_display), &chars_of(" is empty or unreadable as IFC")))),
            ),
        }
    }
}

/// The content hash of an export: the lowercase hex BLAKE3 digest of its bytes.
pub fn content_hash(data: &[u8]) -> (r: String)
    ensures
        r@ == blake3_hex_digest(data@),
{
    blake3_hex(data)
}

// ---- routing --------------------------------------------------------------------

/// The 64-character lowercase hex BLAKE3 digest of `data`.
pub uninterp spec fn blake3_hex_digest(data: Seq<u8>) -> Seq<char>;

/// Calls `blake3::hash` and `Hash::to_hex`; the result is the digest's lowercase
/// hexadecimal text, 64 characters long (two per output byte).
#[verifier::external_body]
pub(crate) fn blake3_hex(data: &[u8]) -> (r: String)
    ensures
        r@ == blake3_hex_digest(data@),
        r@.len() == 64,
{
    blake3::hash(data).to_hex().to_string()
}

pub open spec fn or_empty(o: Option<String>) -> Seq<char> {
    match o {
        Some(s) => s@,
        None => Seq::empty(),
    }
}

/// `"{project_name}|{author}|{approximate_entity_count}"`.
pub open spec fn fingerprint_seed(i: IfcIntake) -> Seq<char> {
    or_empty(i.project_name) + "|"@ + or_empty(i.author) + "|"@ + fmt_int(
        i.approximate_entity_count as int,
    )
}

/// `fingerprint:<blake3 of the seed>` unless the seed is only `|` characters.
pub open spec fn spec_structural_fingerprint(i: IfcIntake) -> Option<Seq<char>> {
    if trim_by(fingerprint_seed(i), crate::text::eq_pred('|')).len() == 0 {
        None
    } else {
        Some("fingerprint:"@ + blake3_hex_digest(encode_utf8(fingerprint_seed(i))))
    }
}

/// The project GlobalId when known, else the structural fingerprint.
pub open spec fn spec_routing_key(i: IfcIntake) -> Option<Seq<char>> {
    match i.project_guid {
        Some(g) => Some(g@),
        None => spec_structural_fingerprint(i),
    }
}

fn opt_chars(o: &Option<String>) -> (r: Vec<char>)
    ensures
        r@ == or_empty(*o),
{
    match o {
        Some(s) => chars_of(s.as_str()),
        None => Vec::new(),
    }
}

impl IfcIntake {
    /// A content-free identity derived from the project name, author and entity count.
    pub fn structural_fingerprint(&self) -> (r: Option<String>)
        ensures
            opt_view(r) == spec_structural_fingerprint(*self),
    {
        let bar = chars_of("|");
        let mut seed = cat(&opt_chars(&self.project_name), &bar);
        seed = cat(&seed, &opt_chars(&self.author));
        seed = cat(&seed, &bar);
        seed = cat(&seed, &fmt_u64(self.approximate_entity_count as u64));
        let trimmed = trim_vec(&seed, &CharClass::Exactly('|'));
        proof {
            assert(class_pred(CharClass::Exactly('|')) == crate::text::eq_pred('|'));
        }
        if trimmed.len() == 0 {
            return None;
        }
        let seed_string = string_of(&seed);
        let digest = blake3_hex(seed_string.as_str().as_bytes());
        let out = cat(&chars_of("fingerprint:"), &chars_of(digest.as_str()));
        Some(string_of(&out))
    }

    /// The route this intake is filed under: its GlobalId, or its structural fingerprint.
    pub fn routing_key(&self) -> (r: Option<String>)
        ensures
            opt_view(r) == spec_routing_key(*self),
    {
        match &self.project_guid {
            Some(guid) => Some(guid.clone()),
            None => self.structural_fingerprint(),
        }
    }
}

// ---- preview elements ---------------------------------------------------------------

/// One displayable entity row of an IFC data section.
#[derive(Debug, Clone, PartialEq, Eq)]
pub struct IfcPreviewElement {
    pub step_id: String,
    pub entity_type: String,
    pub name: Option<String>,
}

pub open spec fn has_prefix(s: Seq<char>, p: Seq<char>) -> bool {
    p.len() <= s.len() && s.subrange(0, p.len() as int) == p
}

/// Entity families never listed as preview rows (relations, properties,
/// geometry, styling, units, ownership, ...).
pub open spec fn skipped_family(u: Seq<char>) -> bool {
    has_prefix(u, "IFCREL"@) || has_prefix(u, "IFCPROPERTY"@) || has_prefix(u, "IFCPROPERTYS"@)
        || has_prefix(u, "IFCQUANTITY"@) || has_prefix(u, "IFCOWNER"@) || has_prefix(
        u,
        "IFCPERSON"@,
    ) || has_prefix(u, "IFCORGANIZATION"@) || has_prefix(u, "IFCAPPLICATION"@) || has_prefix(
        u,
        "IFCSIUNIT"@,
    ) || has_prefix(u, "IFCUNIT"@) || has_prefix(u, "IFCMEASURE"@) || has_prefix(
        u,
        "IFCCARTESIAN"@,
    ) || has_prefix(u, "IFCDIRECTION"@) || has_prefix(u, "IFCAXIS"@) || has_prefix(
        u,
        "IFCLOCALPLACEMENT"@,
    ) || has_prefix(u, "IFCGEOMETRIC"@) || has_prefix(u, "IFCSHAPE"@) || has_prefix(
        u,
        "IFCPRODUCTDEFINITIONSHAPE"@,
    ) || has_prefix(u, "IFCSTYLE"@) || has_prefix(u, "IFCCOLOUR"@) || has_prefix(
        u,
        "IFCMATERIAL"@,
    ) || has_prefix(u, "IFCPRESENTATION"@) || has_prefix(u, "IFCTOPOLOGY"@) || has_prefix(
        u,
        "IFCCONNECTION"@,
    )
}

/// An `IFC*` type (case-insensitive) outside the skipped families.
pub open spec fn spec_is_preview_entity(entity_type: Seq<char>) -> bool {
    has_prefix(upper_seq(entity_type), "IFC"@) && !skipped_family(upper_seq(entity_type))
}

fn starts_with(s: &Vec<char>, p: &str) -> (r: bool)
    ensures
        r == has_prefix(s@, p@),
{
    let pv = chars_of(p);
    if pv.len() > s.len() {
        return false;
    }
    let head = slice_vec(s, 0, pv.len());
    crate::text::chars_eq(&head, &pv)
}

pub fn is_preview_entity(entity_type: &str) -> (r: bool)
    ensures
        r == spec_is_preview_entity(entity_type@),
{
    let u = upper_vec(&chars_of(entity_type));
    if !starts_with(&u, "IFC") {
        return false;
    }
    !(starts_with(&u, "IFCREL") || starts_with(&u, "IFCPROPERTY") || starts_with(
        &u,
        "IFCPROPERTYS",
    ) || starts_with(&u, "IFCQUANTITY") || starts_with(&u, "IFCOWNER") || starts_with(
        &u,
        "IFCPERSON",
    ) || starts_with(&u, "IFCORGANIZATION") || starts_with(&u, "IFCAPPLICATION") || starts_with(
        &u,
        "IFCSIUNIT",
    ) || starts_with(&u, "IFCUNIT") || starts_with(&u, "IFCMEASURE") || starts_with(
        &u,
        "IFCCARTESIAN",
    ) || starts_with(&u, "IFCDIRECTION") || starts_with(&u, "IFCAXIS") || starts_with(
        &u,
        "IFCLOCALPLACEMENT",
    ) || starts_with(&u, "IFCGEOMETRIC") || starts_with(&u, "IFCSHAPE") || starts_with(
        &u,
        "IFCPRODUCTDEFINITIONSHAPE",
    ) || starts_with(&u, "IFCSTYLE") || starts_with(&u, "IFCCOLOUR") || starts_with(
        &u,
        "IFCMATERIAL",
    ) || starts_with(&u, "IFCPRESENTATION") || starts_with(&u, "IFCTOPOLOGY") || starts_with(
        &u,
        "IFCCONNECTION",
    ))
}

/// First index of `c` in `s`.
pub open spec fn first_index_of(s: Seq<char>, c: char, i: int) -> Option<int>
    decreases s.len() - i,
{
    if i < 0 || i >= s.len() {
        None
    } else if s[i] == c {
        Some(i)
    } else {
        first_index_of(s, c, i + 1)
    }
}

fn find_first(s: &Vec<char>, c: char) -> (r: Option<usize>)
    ensures
        match r {
            None => first_index_of(s@, c, 0) is None,
            Some(i) => first_index_of(s@, c, 0) == Some(i as int) && i < s.len(),
        },
{
    let mut i: usize = 0;
    while i < s.len()
        invariant
            i <= s.len(),
            first_index_of(s@, c, 0) == first_index_of(s@, c, i as int),
        decreases s.len() - i,
    {
        if s[i] == c {
            return Some(i);
        }
        i = i + 1;
    }
    None
}

pub open spec fn trim_start_ws(s: Seq<char>) -> Seq<char> {
    trim_start_by(s, ws_pred())
}

/// The element view of one data line: `#<id>= <TYPE>(<args>)` with a preview
/// type; the name is the third argument when it is a STEP string.
pub open spec fn spec_preview_of_line(line: Seq<char>) -> Option<(Seq<char>, Seq<char>, Option<Seq<char>>)> {
    let tr = trim_start_ws(line);
    if tr.len() == 0 || tr[0] != '#' {
        None
    } else {
        match first_index_of(tr, '=', 0) {
            None => None,
            Some(eq) => {
                let rest = trim_start_ws(tr.subrange(eq + 1, tr.len() as int));
                match first_index_of(rest, '(', 0) {
                    None => None,
                    Some(open) => {
                        let raw_type = trim(rest.subrange(0, open));
                        if !has_prefix(upper_seq(raw_type), "IFC"@) || !spec_is_preview_entity(
                            raw_type,
                        ) {
                            None
                        } else {
                            let args = match spec_balanced_parens(
                                rest.subrange(open, rest.len() as int),
                            ) {
                                Some(a) => a,
                                None => Seq::empty(),
                            };
                            let parts = spec_split_top_level_args(args);
                            let name = if parts.len() > 2 {
                                spec_parse_step_string(parts[2])
                            } else {
                                None
                            };
                            Some((trim(tr.subrange(0, eq)), raw_type, name))
                        }
                    },
                }
            },
        }
    }
}

pub open spec fn element_matches(e: IfcPreviewElement, v: (Seq<char>, Seq<char>, Option<Seq<char>>)) -> bool {
    e.step_id@ == v.0 && e.entity_type@ == v.1 && opt_view(e.name) == v.2
}

fn trim_start_vec(s: &Vec<char>) -> (r: Vec<char>)
    ensures
        r@ == trim_start_ws(s@),
{
    let mut a: usize = 0;
    proof {
        assert(s@.subrange(0, s.len() as int) =~= s@);
    }
    while a < s.len() && char_is_ws(s[a])
        invariant
            a <= s.len(),
            trim_start_by(s@, ws_pred()) == trim_start_by(s@.subrange(a as int, s.len() as int), ws_pred()),
        decreases s.len() - a,
    {
        proof {
            let sub = s@.subrange(a as int, s.len() as int);
            assert(sub.drop_first() =~= s@.subrange(a + 1, s.len() as int));
        }
        a = a + 1;
    }
    proof {
        let sub = s@.subrange(a as int, s.len() as int);
        if a == s.len() {
            assert(sub.len() == 0);
        }
    }
    slice_vec(s, a, s.len())
}

/// The preview element a data line describes, if any.
pub fn preview_element(line: &str) -> (r: Option<IfcPreviewElement>)
    ensures
        match r {
            None => spec_preview_of_line(line@) is None,
            Some(e) => spec_preview_of_line(line@) matches Some(v) && element_matches(e, v),
        },
{
    let tr = trim_start_vec(&chars_of(line));
    if tr.len() == 0 || tr[0] != '#' {
        return None;
    }
    let eq = match find_first(&tr, '=') {
        None => return None,
        Some(i) => i,
    };
    let rest = trim_start_vec(&slice_vec(&tr, eq + 1, tr.len()));
    let open = match find_first(&rest, '(') {
        None => return None,
        Some(i) => i,
    };
    let raw_type = trim_vec(&slice_vec(&rest, 0, open), &CharClass::Whitespace);
    proof {
        assert(class_pred(CharClass::Whitespace) == ws_pred());
    }
    let raw_type_string = string_of(&raw_type);
    if !starts_with(&upper_vec(&raw_type), "IFC") || !is_preview_entity(raw_type_string.as_str()) {
        return None;
    }
    let args = match balanced_parens_chars(&slice_vec(&rest, open, rest.len())) {
        Some(a) => a,
        None => Vec::new(),
    };
    let parts = split_top_level_args_chars(&args);
    let name = if parts.len() > 2 {
        match parse_step_string_chars(&parts[2]) {
            Some(v) => Some(string_of(&v)),
            None => None,
        }
    } else {
        None
    };
    let step_id = trim_vec(&slice_vec(&tr, 0, eq), &CharClass::Whitespace);
    Some(IfcPreviewElement { step_id: string_of(&step_id), entity_type: raw_type_string, name })
}

/// Preview rows of `lines[i..]` once `n` rows are taken: a row is taken from each
/// matching line, and reading stops as soon as `limit` rows are held (always
/// after the first row taken).
pub open spec fn previews_from(lines: Seq<Seq<char>>, i: int, n: nat, limit: nat) -> Seq<
    (Seq<char>, Seq<char>, Option<Seq<char>>),
>
    decreases lines.len() - i,
{
    if i < 0 || i >= lines.len() {
        Seq::empty()
    } else {
        match spec_preview_of_line(lines[i]) {
            None => previews_from(lines, i + 1, n, limit),
            Some(v) => if n + 1 >= limit {
                seq![v]
            } else {
                seq![v] + previews_from(lines, i + 1, n + 1, limit)
            },
        }
    }
}

pub open spec fn lines_view(lines: Seq<String>) -> Seq<Seq<char>> {
    Seq::new(lines.len(), |i: int| lines[i]@)
}

/// The preview elements of a data section's lines, at most `limit` of them
/// (one when `limit` is zero).
pub fn parse_preview_lines(lines: &Vec<String>, limit: usize) -> (r: Vec<IfcPreviewElement>)
    ensures
        r@.len() == previews_from(lines_view(lines@), 0, 0, limit as nat).len(),
        forall|k: int|
            0 <= k < r@.len() ==> element_matches(
                #[trigger] r@[k],
                previews_from(lines_view(lines@), 0, 0, limit as nat)[k],
            ),
{
    let ghost all = previews_from(lines_view(lines@), 0, 0, limit as nat);
    let mut out: Vec<IfcPreviewElement> = Vec::new();
    let mut i: usize = 0;
    while i < lines.len()
        invariant
            i <= lines.len(),
            all == previews_from(lines_view(lines@), 0, 0, limit as nat),
            out@.len() + previews_from(lines_view(lines@), i as int, out@.len() as nat, limit as nat).len() == all.len(),
            forall|k: int| 0 <= k < out@.len() ==> element_matches(#[trigger] out@[k], all[k]),
            forall|k: int|
                0 <= k < previews_from(lines_view(lines@), i as int, out@.len() as nat, limit as nat).len()
                    ==> all[out@.len() + k] == #[trigger] previews_from(
                    lines_view(lines@),
                    i as int,
                    out@.len() as nat,
                    limit as nat,
                )[k],
        decreases lines.len() - i,
    {
        let ghost n = out@.len();
        let ghost here = previews_from(lines_view(lines@), i as int, n as nat, limit as nat);
        proof {
            assert(lines_view(lines@)[i as int] == lines@[i as int]@);
        }
        match preview_element(lines[i].as_str()) {
            Some(e) => {
                let ghost v = spec_preview_of_line(lines@[i as int]@)->0;
                proof {
                    assert(here[0] == v);
                }
                out.push(e);
                if out.len() >= limit {
                    proof {
                        assert(here.len() == 1);
                        assert(all[n as int] == v);
                    }
                    return out;
                }
                proof {
                    let rest = previews_from(lines_view(lines@), i + 1, (n + 1) as nat, limit as nat);
                    assert(here == seq![v] + rest);
                    assert forall|k: int| 0 <= k < rest.len() implies all[out@.len() + k]
                        == #[trigger] rest[k] by {
                        assert(here[k + 1] == rest[k]);
                    }
                    assert forall|k: int| 0 <= k < out@.len() implies element_matches(
                        #[trigger] out@[k],
                        all[k],
                    ) by {
                        if k == n {
                            assert(all[n as int] == here[0]);
                        }
                    }
                }
            },
            None => {},
        }
        i = i + 1;
    }
    out
}


/// Which entity types are listed as preview rows: none whose upper-cased name
/// starts with one of the skipped families (relations, properties, quantities,
/// ownership, units, placement and geometry, styling, materials, presentation,
/// topology, connections), and every other `IFC*` type.
pub proof fn law_preview_skips_the_listed_families(entity_type: Seq<char>)
    ensures
        has_prefix(upper_seq(entity_type), "IFCREL"@) ==> !spec_is_preview_entity(entity_type),
        has_prefix(upper_seq(entity_type), "IFCPROPERTY"@) ==> !spec_is_preview_entity(entity_type),
        has_prefix(upper_seq(entity_type), "IFCPROPERTYS"@) ==> !spec_is_preview_entity(entity_type),
        has_prefix(upper_seq(entity_type), "IFCQUANTITY"@) ==> !spec_is_preview_entity(entity_type),
        has_prefix(upper_seq(entity_type), "IFCOWNER"@) ==> !spec_is_preview_entity(entity_type),
        has_prefix(upper_seq(entity_type), "IFCPERSON"@) ==> !spec_is_preview_entity(entity_type),
        has_prefix(upper_seq(entity_type), "IFCORGANIZATION"@) ==> !spec_is_preview_entity(entity_type),
        has_prefix(upper_seq(entity_type), "IFCAPPLICATION"@) ==> !spec_is_preview_entity(entity_type),
        has_prefix(upper_seq(entity_type), "IFCSIUNIT"@) ==> !spec_is_preview_entity(entity_type),
        has_prefix(upper_seq(entity_type), "IFCUNIT"@) ==> !spec_is_preview_entity(entity_type),
        has_prefix(upper_seq(entity_type), "IFCMEASURE"@) ==> !spec_is_preview_entity(entity_type),
        has_prefix(upper_seq(entity_type), "IFCCARTESIAN"@) ==> !spec_is_preview_entity(entity_type),
        has_prefix(upper_seq(entity_type), "IFCDIRECTION"@) ==> !spec_is_preview_entity(entity_type),
        has_prefix(upper_seq(entity_type), "IFCAXIS"@) ==> !spec_is_preview_entity(entity_type),
        has_prefix(upper_seq(entity_type), "IFCLOCALPLACEMENT"@) ==> !spec_is_preview_entity(entity_type),
        has_prefix(upper_seq(entity_type), "IFCGEOMETRIC"@) ==> !spec_is_preview_entity(entity_type),
        has_prefix(upper_seq(entity_type), "IFCSHAPE"@) ==> !spec_is_preview_entity(entity_type),
        has_prefix(upper_seq(entity_type), "IFCPRODUCTDEFINITIONSHAPE"@) ==> !spec_is_preview_entity(entity_type),
        has_prefix(upper_seq(entity_type), "IFCSTYLE"@) ==> !spec_is_preview_entity(entity_type),
        has_prefix(upper_seq(entity_type), "IFCCOLOUR"@) ==> !spec_is_preview_entity(entity_type),
        has_prefix(upper_seq(entity_type), "IFCMATERIAL"@) ==> !spec_is_preview_entity(entity_type),
        has_prefix(upper_seq(entity_type), "IFCPRESENTATION"@) ==> !spec_is_preview_entity(entity_type),
        has_prefix(upper_seq(entity_type), "IFCTOPOLOGY"@) ==> !spec_is_preview_entity(entity_type),
        has_prefix(upper_seq(entity_type), "IFCCONNECTION"@) ==> !spec_is_preview_entity(entity_type),
        has_prefix(upper_seq(entity_type), "IFC"@) && !has_prefix(upper_seq(entity_type), "IFCREL"@) && !has_prefix(upper_seq(entity_type), "IFCPROPERTY"@) && !has_prefix(upper_seq(entity_type), "IFCPROPERTYS"@) && !has_prefix(upper_seq(entity_type), "IFCQUANTITY"@) && !has_prefix(upper_seq(entity_type), "IFCOWNER"@) && !has_prefix(upper_seq(entity_type), "IFCPERSON"@) && !has_prefix(upper_seq(entity_type), "IFCORGANIZATION"@) && !has_prefix(upper_seq(entity_type), "IFCAPPLICATION"@) && !has_prefix(upper_seq(entity_type), "IFCSIUNIT"@) && !has_prefix(upper_seq(entity_type), "IFCUNIT"@) && !has_prefix(upper_seq(entity_type), "IFCMEASURE"@) && !has_prefix(upper_seq(entity_type), "IFCCARTESIAN"@) && !has_prefix(upper_seq(entity_type), "IFCDIRECTION"@) && !has_prefix(upper_seq(entity_type), "IFCAXIS"@) && !has_prefix(upper_seq(entity_type), "IFCLOCALPLACEMENT"@) && !has_prefix(upper_seq(entity_type), "IFCGEOMETRIC"@) && !has_prefix(upper_seq(entity_type), "IFCSHAPE"@) && !has_prefix(upper_seq(entity_type), "IFCPRODUCTDEFINITIONSHAPE"@) && !has_prefix(upper_seq(entity_type), "IFCSTYLE"@) && !has_prefix(upper_seq(entity_type), "IFCCOLOUR"@) && !has_prefix(upper_seq(entity_type), "IFCMATERIAL"@) && !has_prefix(upper_seq(entity_type), "IFCPRESENTATION"@) && !has_prefix(upper_seq(entity_type), "IFCTOPOLOGY"@) && !has_prefix(upper_seq(entity_type), "IFCCONNECTION"@) ==> spec_is_preview_entity(entity_type),
        !has_prefix(upper_seq(entity_type), "IFC"@) ==> !spec_is_preview_entity(entity_type),
{
}

} // verus!
