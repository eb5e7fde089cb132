//! Cross-service contract versions and the `name/major` tag rules.

use vstd::prelude::*;
use vstd::string::StrSliceExecFns;
use crate::text::{dec, digit_char, is_ws, trim_start_by, trim_end_by, is_ascii_digit, trim, ws_pred, class_pred, CharClass, chars_of, slice_vec, trim_vec, char_is_ascii_digit, chars_eq};

verus! {

/// Full schema tag emitted by the engine's visual diff.
pub const VISUAL_DIFF: &'static str = "vex.visual-diff/1";

/// Manifest for derived, commit-exact IFC render artifacts (first generation).
pub const RENDER_MANIFEST: &'static str = "vex.render-manifest/1";

/// Second-generation render manifest (policy identity, tile-local index).
pub const RENDER_MANIFEST_V2: &'static str = "vex.render-manifest/2";

/// Base namespace for a renderer policy identity.
pub const RENDER_POLICY: &'static str = "vex.render-policy/1";

/// Status payload for derived IFC render-artifact generation.
pub const RENDER_STATUS: &'static str = "vex.render-status/1";

/// Semantic lookup index associated with a render-artifact manifest.
pub const RENDER_SEMANTIC_INDEX: &'static str = "vex.render-semantic-index/1";

/// Durable, versioned local-first federation coordination-set model.
pub const FEDERATION: &'static str = "vex.federation/1";

/// Resolved federation snapshot.
pub const FEDERATION_SNAPSHOT: &'static str = "vex.federation-snapshot/1";

/// Index of the last occurrence of `c` in `s`.
pub open spec fn last_index_of(s: Seq<char>, c: char) -> Option<int>
    decreases s.len(),
{
    if s.len() == 0 {
        None
    } else if s.last() == c {
        Some(s.len() - 1)
    } else {
        last_index_of(s.drop_last(), c)
    }
}

/// Decimal value of a run of ASCII digits.
pub open spec fn digits_value(s: Seq<char>) -> int
    decreases s.len(),
{
    if s.len() == 0 {
        0
    } else {
        digits_value(s.drop_last()) * 10 + ((s.last() as u32) - ('0' as u32))
    }
}

pub open spec fn all_digits(s: Seq<char>) -> bool {
    forall|i: int| 0 <= i < s.len() ==> is_ascii_digit(#[trigger] s[i])
}

/// `u32::from_str`: an optional `+`, then one or more ASCII digits whose value fits.
pub open spec fn parse_u32(s: Seq<char>) -> Option<u32> {
    let d = if s.len() > 0 && s[0] == '+' {
        s.drop_first()
    } else {
        s
    };
    if d.len() > 0 && all_digits(d) && digits_value(d) <= u32::MAX {
        Some(digits_value(d) as u32)
    } else {
        None
    }
}

/// `parse_tag`: split at the last `/`; the part after it, trimmed, must parse as a `u32`.
pub open spec fn spec_parse_tag(tag: Seq<char>) -> Option<(Seq<char>, u32)> {
    match last_index_of(tag, '/') {
        None => None,
        Some(i) => match parse_u32(trim(tag.subrange(i + 1, tag.len() as int))) {
            None => None,
            Some(m) => Some((tag.subrange(0, i), m)),
        },
    }
}

pub open spec fn spec_is_compatible(tag: Seq<char>, expected: Seq<char>) -> bool {
    match (spec_parse_tag(tag), spec_parse_tag(expected)) {
        (Some((n1, m1)), Some((n2, m2))) => n1 == n2 && m1 == m2,
        _ => tag == expected,
    }
}

proof fn lemma_digits_value_nonneg(s: Seq<char>)
    requires
        all_digits(s),
    ensures
        digits_value(s) >= 0,
    decreases s.len(),
{
    if s.len() > 0 {
        assert(all_digits(s.drop_last())) by {
            assert forall|i: int| 0 <= i < s.drop_last().len() implies is_ascii_digit(
                #[trigger] s.drop_last()[i],
            ) by {
                assert(s.drop_last()[i] == s[i]);
            }
        }
        lemma_digits_value_nonneg(s.drop_last());
        assert(is_ascii_digit(s[s.len() - 1]));
    }
}

proof fn lemma_digits_value_prefix_le(s: Seq<char>, i: int)
    requires
        all_digits(s),
        0 <= i <= s.len(),
    ensures
        digits_value(s.subrange(0, i)) <= digits_value(s),
    decreases s.len() - i,
{
    if i < s.len() {
        let t = s.subrange(0, i + 1);
        assert(all_digits(t)) by {
            assert forall|j: int| 0 <= j < t.len() implies is_ascii_digit(#[trigger] t[j]) by {
                assert(t[j] == s[j]);
            }
        }
        assert(t.drop_last() =~= s.subrange(0, i));
        lemma_digits_value_nonneg(t.drop_last());
        assert(is_ascii_digit(t.last()));
        lemma_digits_value_prefix_le(s, i + 1);
    } else {
        assert(s.subrange(0, i) =~= s);
    }
}

/// `u32::from_str` on a character sequence.
pub fn parse_u32_chars(s: &Vec<char>) -> (r: Option<u32>)
    ensures
        r == parse_u32(s@),
{
    let n = s.len();
    let mut start: usize = 0;
    if n > 0 && s[0] == '+' {
        start = 1;
    }
    let ghost d = if s@.len() > 0 && s@[0] == '+' {
        s@.drop_first()
    } else {
        s@
    };
    assert(d =~= s@.subrange(start as int, n as int));
    if start == n {
        return None;
    }
    let mut v: u64 = 0;
    let mut i: usize = start;
    while i < n
        invariant
            start <= i <= n == s.len(),
            start < n,
            d == s@.subrange(start as int, n as int),
            d == (if s@.len() > 0 && s@[0] == '+' {
                s@.drop_first()
            } else {
                s@
            }),
            forall|j: int| start <= j < i ==> is_ascii_digit(#[trigger] s@[j]),
            v == digits_value(s@.subrange(start as int, i as int)),
            v <= u32::MAX,
        decreases n - i,
    {
        let c = s[i];
        if !char_is_ascii_digit(c) {
            proof {
                assert(d[i - start] == c);
            }
            return None;
        }
        let dv: u64 = (c as u32 - '0' as u32) as u64;
        let nv: u64 = v * 10 + dv;
        proof {
            let pre = s@.subrange(start as int, i + 1);
            assert(pre.drop_last() =~= s@.subrange(start as int, i as int));
            assert(pre.last() == c);
        }
        if nv > u32::MAX as u64 {
            proof {
                assert(all_digits(d) ==> digits_value(d) > u32::MAX) by {
                    if all_digits(d) {
                        assert(d.subrange(0, i + 1 - start) =~= s@.subrange(
                            start as int,
                            i + 1,
                        ));
                        lemma_digits_value_prefix_le(d, i + 1 - start);
                    }
                }
            }
            return None;
        }
        v = nv;
        i = i + 1;
    }
    proof {
        assert(all_digits(d)) by {
            assert forall|j: int| 0 <= j < d.len() implies is_ascii_digit(#[trigger] d[j]) by {
                assert(d[j] == s@[start + j]);
            }
        }
    }
    Some(v as u32)
}

/// `i64::from_str`: an optional sign, then one or more ASCII digits whose signed value fits.
pub open spec fn parse_i64(s: Seq<char>) -> Option<i64> {
    let neg = s.len() > 0 && s[0] == '-';
    let d = if s.len() > 0 && (s[0] == '-' || s[0] == '+') {
        s.drop_first()
    } else {
        s
    };
    let v = if neg {
        -digits_value(d)
    } else {
        digits_value(d)
    };
    if d.len() > 0 && all_digits(d) && i64::MIN <= v <= i64::MAX {
        Some(v as i64)
    } else {
        None
    }
}

/// `i64::from_str` on a character sequence.
pub fn parse_i64_chars(s: &Vec<char>) -> (r: Option<i64>)
    ensures
        r == parse_i64(s@),
{
    let n = s.len();
    let neg = n > 0 && s[0] == '-';
    let mut start: usize = 0;
    if n > 0 && (s[0] == '-' || s[0] == '+') {
        start = 1;
    }
    let ghost d = if s@.len() > 0 && (s@[0] == '-' || s@[0] == '+') {
        s@.drop_first()
    } else {
        s@
    };
    assert(d =~= s@.subrange(start as int, n as int));
    if start == n {
        return None;
    }
    let limit: u64 = 0x8000_0000_0000_0000;
    let mut v: u64 = 0;
    let mut i: usize = start;
    while i < n
        invariant
            start <= i <= n == s.len(),
            start < n,
            d == s@.subrange(start as int, n as int),
            d == (if s@.len() > 0 && (s@[0] == '-' || s@[0] == '+') {
                s@.drop_first()
            } else {
                s@
            }),
            neg == (s@.len() > 0 && s@[0] == '-'),
            forall|j: int| start <= j < i ==> is_ascii_digit(#[trigger] s@[j]),
            v == digits_value(s@.subrange(start as int, i as int)),
            v <= limit,
            limit == 0x8000_0000_0000_0000u64,
        decreases n - i,
    {
        let c = s[i];
        if !char_is_ascii_digit(c) {
            proof {
                assert(d[i - start] == c);
            }
            return None;
        }
        let dv: u64 = (c as u32 - '0' as u32) as u64;
        proof {
            let pre = s@.subrange(start as int, i + 1);
            assert(pre.drop_last() =~= s@.subrange(start as int, i as int));
            assert(pre.last() == c);
        }
        if v > (limit - dv) / 10 {
            proof {
                assert(v * 10 + dv > limit) by (nonlinear_arith)
                    requires
                        v > (limit - dv) / 10,
                        dv <= 9,
                        limit == 0x8000_0000_0000_0000u64,
                ;
                assert(all_digits(d) ==> digits_value(d) > limit) by {
                    if all_digits(d) {
                        assert(d.subrange(0, i + 1 - start) =~= s@.subrange(start as int, i + 1));
                        lemma_digits_value_prefix_le(d, i + 1 - start);
                    }
                }
            }
            return None;
        }
        proof {
            assert(v * 10 + dv <= limit) by (nonlinear_arith)
                requires
                    v <= (limit - dv) / 10,
                    dv <= 9,
                    limit == 0x8000_0000_0000_0000u64,
            ;
        }
        v = v * 10 + dv;
        i = i + 1;
    }
    proof {
        assert(all_digits(d)) by {
            assert forall|j: int| 0 <= j < d.len() implies is_ascii_digit(#[trigger] d[j]) by {
                assert(d[j] == s@[start + j]);
            }
        }
        assert(s@.subrange(start as int, n as int) == d);
    }
    if neg {
        if v == limit {
            Some(i64::MIN)
        } else {
            let w = v as i64;
            Some(-w)
        }
    } else {
        if v == limit {
            None
        } else {
            Some(v as i64)
        }
    }
}

/// Last index of `c` in `s`.
pub fn find_last(s: &Vec<char>, c: char) -> (r: Option<usize>)
    ensures
        match r {
            None => last_index_of(s@, c) is None,
            Some(i) => last_index_of(s@, c) == Some(i as int) && i < s.len(),
        },
{
    let mut i = s.len();
    proof {
        assert(s@.subrange(0, i as int) =~= s@);
    }
    while i > 0
        invariant
            i <= s.len(),
            last_index_of(s@, c) == last_index_of(s@.subrange(0, i as int), c),
        decreases i,
    {
        proof {
            let sub = s@.subrange(0, i as int);
            assert(sub.drop_last() =~= s@.subrange(0, i - 1));
        }
        if s[i - 1] == c {
            return Some(i - 1);
        }
        i = i - 1;
    }
    proof {
        assert(s@.subrange(0, 0).len() == 0);
    }
    None
}

/// Split a `name/major` schema tag into `(name, major)`.
///
/// `"vex.visual-diff/1"` gives `Some(("vex.visual-diff", 1))`.
pub fn parse_tag(tag: &str) -> (r: Option<(&str, u32)>)
    ensures
        match r {
            None => spec_parse_tag(tag@) is None,
            Some((name, major)) => spec_parse_tag(tag@) == Some((name@, major)),
        },
{
    let chars = chars_of(tag);
    proof {
        assert(chars@.subrange(0, chars@.len() as int) =~= chars@);
    }
    let idx = match find_last(&chars, '/') {
        None => return None,
        Some(i) => i,
    };
    let rest = slice_vec(&chars, idx + 1, chars.len());
    let trimmed = trim_vec(&rest, &CharClass::Whitespace);
    proof {
        assert(class_pred(CharClass::Whitespace) == ws_pred());
    }
    let major = match parse_u32_chars(&trimmed) {
        None => return None,
        Some(m) => m,
    };
    let name = tag.substring_char(0, idx);
    Some((name, major))
}

/// True when `tag` shares the same schema name and major version as `expected`.
/// A different name or major is rejected; two tags that do not parse must be equal.
pub fn is_compatible(tag: &str, expected: &str) -> (r: bool)
    ensures
        r == spec_is_compatible(tag@, expected@),
{
    match (parse_tag(tag), parse_tag(expected)) {
        (Some((n1, m1)), Some((n2, m2))) => {
            let a = chars_of(n1);
            let b = chars_of(n2);
            chars_eq(&a, &b) && m1 == m2
        },
        _ => {
            let a = chars_of(tag);
            let b = chars_of(expected);
            chars_eq(&a, &b)
        },
    }
}

/// Every tag is compatible with itself, and compatibility is symmetric.
pub proof fn law_compatibility_is_reflexive_and_symmetric(a: Seq<char>, b: Seq<char>)
    ensures
        spec_is_compatible(a, a),
        spec_is_compatible(a, b) == spec_is_compatible(b, a),
{
}


proof fn lemma_dec_value(n: nat)
    ensures
        dec(n).len() > 0,
        all_digits(dec(n)),
        digits_value(dec(n)) == n,
    decreases n,
{
    if n < 10 {
        let d = dec(n);
        assert(d.drop_last() =~= Seq::<char>::empty());
        assert(digit_char(n) as u32 == '0' as u32 + n);
        assert(d.last() == digit_char(n));
        assert(digits_value(d) == digits_value(d.drop_last()) * 10 + ((d.last() as u32) - ('0' as u32)));
        assert(digits_value(d.drop_last()) == 0);
    } else {
        lemma_dec_value(n / 10);
        let d = dec(n);
        assert(d.drop_last() =~= dec(n / 10));
        assert(digit_char((n % 10) as nat) as u32 == '0' as u32 + n % 10);
        assert(all_digits(d)) by {
            assert forall|i: int| 0 <= i < d.len() implies is_ascii_digit(#[trigger] d[i]) by {
                if i < d.len() - 1 {
                    assert(d[i] == dec(n / 10)[i]);
                }
            }
        }
        assert((n / 10) * 10 + n % 10 == n) by (nonlinear_arith);
        assert(d.last() == digit_char((n % 10) as nat));
        assert(digits_value(d) == digits_value(d.drop_last()) * 10 + ((d.last() as u32) - ('0' as u32)));
        assert(digits_value(d.drop_last()) == n / 10);
    }
}

proof fn lemma_last_index_past(a: Seq<char>, d: Seq<char>, c: char)
    requires
        forall|i: int| 0 <= i < d.len() ==> #[trigger] d[i] != c,
    ensures
        last_index_of(a + d, c) == last_index_of(a, c),
    decreases d.len(),
{
    if d.len() > 0 {
        assert((a + d).drop_last() =~= a + d.drop_last());
        lemma_last_index_past(a, d.drop_last(), c);
    } else {
        assert(a + d =~= a);
    }
}

/// A schema name joined to a decimal major by `/` parses back to that pair,
/// whatever the name holds (a `/` in it included).
pub proof fn law_tag_round_trip(name: Seq<char>, major: u32)
    ensures
        spec_parse_tag(name + seq!['/'] + dec(major as nat)) == Some((name, major)),
{
    let d = dec(major as nat);
    let tag = name + seq!['/'] + d;
    lemma_dec_value(major as nat);
    assert forall|i: int| 0 <= i < d.len() implies #[trigger] d[i] != '/' by {
        assert(is_ascii_digit(d[i]));
    }
    assert(tag =~= name.push('/') + d);
    lemma_last_index_past(name.push('/'), d, '/');
    assert(name.push('/').drop_last() =~= name);
    assert(last_index_of(tag, '/') == Some(name.len() as int));
    assert(tag.subrange(name.len() as int + 1, tag.len() as int) =~= d);
    assert(tag.subrange(0, name.len() as int) =~= name);
    assert(!is_ws(d[0]) && !is_ws(d.last())) by {
        assert(is_ascii_digit(d[0]) && is_ascii_digit(d[d.len() - 1]));
    }
    assert(trim_start_by(d, ws_pred()) == d);
    assert(trim_end_by(d, ws_pred()) == d);
    assert(trim(d) == d);
    assert(d[0] != '+') by {
        assert(is_ascii_digit(d[0]));
    }
}

} // verus!
