//! Character classification, trimming and conversion helpers on `Seq<char>`.

use vstd::prelude::*;
use vstd::string::StrSliceExecFns;

verus! {

/// Unicode `White_Space` property, as used by `char::is_whitespace` and `str::trim`.
pub open spec fn is_ws(c: char) -> bool {
    let u = c as u32;
    (0x09 <= u && u <= 0x0D) || u == 0x20 || u == 0x85 || u == 0xA0 || u == 0x1680
        || (0x2000 <= u && u <= 0x200A) || u == 0x2028 || u == 0x2029 || u == 0x202F
        || u == 0x205F || u == 0x3000
}

pub fn char_is_ws(c: char) -> (r: bool)
    ensures
        r == is_ws(c),
{
    let u = c as u32;
    (0x09 <= u && u <= 0x0D) || u == 0x20 || u == 0x85 || u == 0xA0 || u == 0x1680 || (0x2000
        <= u && u <= 0x200A) || u == 0x2028 || u == 0x2029 || u == 0x202F || u == 0x205F || u
        == 0x3000
}

pub open spec fn is_ascii_digit(c: char) -> bool {
    '0' as u32 <= c as u32 <= '9' as u32
}

pub open spec fn is_ascii_upper(c: char) -> bool {
    'A' as u32 <= c as u32 <= 'Z' as u32
}

pub open spec fn is_ascii_lower(c: char) -> bool {
    'a' as u32 <= c as u32 <= 'z' as u32
}

pub open spec fn is_ascii_alpha(c: char) -> bool {
    is_ascii_upper(c) || is_ascii_lower(c)
}

pub open spec fn is_ascii_alnum(c: char) -> bool {
    is_ascii_alpha(c) || is_ascii_digit(c)
}

pub open spec fn is_ascii_hex(c: char) -> bool {
    is_ascii_digit(c) || ('a' as u32 <= c as u32 <= 'f' as u32) || ('A' as u32 <= c as u32
        <= 'F' as u32)
}

/// Unicode general category `Cc`, as used by `char::is_control`.
pub open spec fn is_control(c: char) -> bool {
    (c as u32) <= 0x1F || (0x7F <= (c as u32) && (c as u32) <= 0x9F)
}

pub fn char_is_ascii_digit(c: char) -> (r: bool)
    ensures
        r == is_ascii_digit(c),
{
    '0' as u32 <= c as u32 && c as u32 <= '9' as u32
}

pub fn char_is_ascii_alpha(c: char) -> (r: bool)
    ensures
        r == is_ascii_alpha(c),
{
    let u = c as u32;
    ('A' as u32 <= u && u <= 'Z' as u32) || ('a' as u32 <= u && u <= 'z' as u32)
}

pub fn char_is_ascii_alnum(c: char) -> (r: bool)
    ensures
        r == is_ascii_alnum(c),
{
    char_is_ascii_alpha(c) || char_is_ascii_digit(c)
}

pub fn char_is_ascii_hex(c: char) -> (r: bool)
    ensures
        r == is_ascii_hex(c),
{
    let u = c as u32;
    char_is_ascii_digit(c) || ('a' as u32 <= u && u <= 'f' as u32) || ('A' as u32 <= u && u
        <= 'F' as u32)
}

pub fn char_is_control(c: char) -> (r: bool)
    ensures
        r == is_control(c),
{
    let u = c as u32;
    u <= 0x1F || (0x7F <= u && u <= 0x9F)
}

/// ASCII upper-casing of one character (`char::to_ascii_uppercase`).
pub open spec fn upper(c: char) -> char {
    if is_ascii_lower(c) {
        ((c as u32) - 32) as char
    } else {
        c
    }
}

pub open spec fn upper_seq(s: Seq<char>) -> Seq<char> {
    Seq::new(s.len(), |i: int| upper(s[i]))
}

pub fn char_upper(c: char) -> (r: char)
    ensures
        r == upper(c),
{
    let u = c as u32;
    if 'a' as u32 <= u && u <= 'z' as u32 {
        let v: u8 = (u - 32) as u8;
        v as char
    } else {
        c
    }
}

/// Drops leading characters that satisfy `p`.
pub open spec fn trim_start_by(s: Seq<char>, p: spec_fn(char) -> bool) -> Seq<char>
    decreases s.len(),
{
    if s.len() > 0 && p(s[0]) {
        trim_start_by(s.drop_first(), p)
    } else {
        s
    }
}

/// Drops trailing characters that satisfy `p`.
pub open spec fn trim_end_by(s: Seq<char>, p: spec_fn(char) -> bool) -> Seq<char>
    decreases s.len(),
{
    if s.len() > 0 && p(s.last()) {
        trim_end_by(s.drop_last(), p)
    } else {
        s
    }
}

pub open spec fn trim_by(s: Seq<char>, p: spec_fn(char) -> bool) -> Seq<char> {
    trim_end_by(trim_start_by(s, p), p)
}

pub open spec fn ws_pred() -> spec_fn(char) -> bool {
    |c: char| is_ws(c)
}

/// `str::trim`: strips Unicode whitespace at both ends.
pub open spec fn trim(s: Seq<char>) -> Seq<char> {
    trim_by(s, ws_pred())
}

pub open spec fn eq_pred(x: char) -> spec_fn(char) -> bool {
    |c: char| c == x
}

/// The character classes that the library trims by.
pub enum CharClass {
    Whitespace,
    Exactly(char),
    /// Anything but an ASCII alphanumeric or one of `+ / _ - =`.
    NotSecretChar,
}

pub open spec fn is_secret_char(c: char) -> bool {
    is_ascii_alnum(c) || c == '+' || c == '/' || c == '_' || c == '-' || c == '='
}

pub open spec fn class_pred(k: CharClass) -> spec_fn(char) -> bool {
    match k {
        CharClass::Whitespace => ws_pred(),
        CharClass::Exactly(x) => eq_pred(x),
        CharClass::NotSecretChar => |c: char| !is_secret_char(c),
    }
}

pub fn char_is_secret_char(c: char) -> (r: bool)
    ensures
        r == is_secret_char(c),
{
    char_is_ascii_alnum(c) || c == '+' || c == '/' || c == '_' || c == '-' || c == '='
}

pub fn class_matches(k: &CharClass, c: char) -> (r: bool)
    ensures
        r == class_pred(*k)(c),
{
    match k {
        CharClass::Whitespace => char_is_ws(c),
        CharClass::Exactly(x) => c == *x,
        CharClass::NotSecretChar => !char_is_secret_char(c),
    }
}

/// Index range `[a, b)` of `s` that remains after trimming by `k`.
pub fn trim_range(s: &Vec<char>, k: &CharClass) -> (r: (usize, usize))
    ensures
        r.0 <= r.1 <= s.len(),
        s@.subrange(r.0 as int, r.1 as int) == trim_by(s@, class_pred(*k)),
{
    let ghost p = class_pred(*k);
    let n = s.len();
    let mut a: usize = 0;
    proof {
        assert(s@.subrange(0, n as int) =~= s@);
    }
    while a < n && class_matches(k, s[a])
        invariant
            a <= n == s.len(),
            p == class_pred(*k),
            trim_start_by(s@, p) == trim_start_by(s@.subrange(a as int, n as int), p),
        decreases n - a,
    {
        proof {
            let sub = s@.subrange(a as int, n as int);
            assert(sub.drop_first() =~= s@.subrange(a + 1, n as int));
        }
        a = a + 1;
    }
    proof {
        let sub = s@.subrange(a as int, n as int);
        if a == n {
            assert(sub.len() == 0);
        }
        assert(trim_start_by(sub, p) == sub);
    }
    let mut b: usize = n;
    while b > a && class_matches(k, s[b - 1])
        invariant
            a <= b <= n == s.len(),
            p == class_pred(*k),
            trim_start_by(s@, p) == s@.subrange(a as int, n as int),
            trim_by(s@, p) == trim_end_by(s@.subrange(a as int, b as int), p),
        decreases b - a,
    {
        proof {
            let sub = s@.subrange(a as int, b as int);
            assert(sub.drop_last() =~= s@.subrange(a as int, b - 1));
        }
        b = b - 1;
    }
    proof {
        let sub = s@.subrange(a as int, b as int);
        if a == b {
            assert(sub.len() == 0);
        }
        assert(trim_end_by(sub, p) == sub);
    }
    (a, b)
}

/// Copies `s[a..b]`.
pub fn slice_vec(s: &Vec<char>, a: usize, b: usize) -> (r: Vec<char>)
    requires
        a <= b <= s.len(),
    ensures
        r@ == s@.subrange(a as int, b as int),
{
    proof {
        assert(s@.subrange(a as int, a as int) =~= Seq::<char>::empty());
    }
    let mut r: Vec<char> = Vec::new();
    let mut i = a;
    while i < b
        invariant
            a <= i <= b <= s.len(),
            r@ == s@.subrange(a as int, i as int),
        decreases b - i,
    {
        r.push(s[i]);
        i = i + 1;
        proof {
            assert(r@ =~= s@.subrange(a as int, i as int));
        }
    }
    r
}

pub fn trim_vec(s: &Vec<char>, k: &CharClass) -> (r: Vec<char>)
    ensures
        r@ == trim_by(s@, class_pred(*k)),
{
    let (a, b) = trim_range(s, k);
    slice_vec(s, a, b)
}

/// The characters of a string slice.
pub fn chars_of(s: &str) -> (r: Vec<char>)
    ensures
        r@ == s@,
{
    let n = s.unicode_len();
    let mut r: Vec<char> = Vec::new();
    let mut i: usize = 0;
    while i < n
        invariant
            i <= n,
            n == s@.len(),
            r@ == s@.subrange(0, i as int),
        decreases n - i,
    {
        r.push(s.get_char(i));
        i = i + 1;
        proof {
            assert(r@ =~= s@.subrange(0, i as int));
        }
    }
    proof {
        assert(r@ =~= s@);
    }
    r
}

/// Appends one character (`String::push`).
#[verifier::external_body]
fn push_char(s: &mut String, c: char)
    ensures
        final(s)@ == old(s)@.push(c),
{
    s.push(c);
}

/// A string holding exactly the given characters.
pub fn string_of(v: &Vec<char>) -> (r: String)
    ensures
        r@ == v@,
{
    let mut r = String::new();
    let mut i: usize = 0;
    while i < v.len()
        invariant
            i <= v.len(),
            r@ == v@.subrange(0, i as int),
        decreases v.len() - i,
    {
        push_char(&mut r, v[i]);
        i = i + 1;
        proof {
            assert(r@ =~= v@.subrange(0, i as int));
        }
    }
    proof {
        assert(r@ =~= v@);
    }
    r
}

/// Character-sequence equality.
pub fn chars_eq(a: &Vec<char>, b: &Vec<char>) -> (r: bool)
    ensures
        r == (a@ == b@),
{
    if a.len() != b.len() {
        return false;
    }
    let mut i: usize = 0;
    while i < a.len()
        invariant
            i <= a.len() == b.len(),
            a@.subrange(0, i as int) == b@.subrange(0, i as int),
        decreases a.len() - i,
    {
        if a[i] != b[i] {
            assert(a@[i as int] != b@[i as int]);
            return false;
        }
        i = i + 1;
        proof {
            assert(a@.subrange(0, i as int) =~= a@.subrange(0, i - 1).push(a@[i - 1]));
            assert(b@.subrange(0, i as int) =~= b@.subrange(0, i - 1).push(b@[i - 1]));
        }
    }
    proof {
        assert(a@ =~= a@.subrange(0, a.len() as int));
        assert(b@ =~= b@.subrange(0, b.len() as int));
    }
    true
}

/// True when `s` is empty after trimming whitespace (`s.trim().is_empty()`).
pub fn is_blank(s: &str) -> (r: bool)
    ensures
        r == (trim(s@).len() == 0),
{
    let v = chars_of(s);
    let (a, b) = trim_range(&v, &CharClass::Whitespace);
    proof {
        assert(class_pred(CharClass::Whitespace) == ws_pred());
    }
    a == b
}

/// Concatenation of two character vectors.
pub fn cat(a: &Vec<char>, b: &Vec<char>) -> (r: Vec<char>)
    ensures
        r@ == a@ + b@,
{
    let mut r = slice_vec(a, 0, a.len());
    proof {
        assert(a@.subrange(0, a.len() as int) =~= a@);
    }
    let mut i: usize = 0;
    while i < b.len()
        invariant
            i <= b.len(),
            r@ == a@ + b@.subrange(0, i as int),
        decreases b.len() - i,
    {
        r.push(b[i]);
        i = i + 1;
        proof {
            assert(r@ =~= a@ + b@.subrange(0, i as int));
        }
    }
    proof {
        assert(b@.subrange(0, b.len() as int) =~= b@);
    }
    r
}

/// A fresh `String` with the characters of `s`.
pub fn owned(s: &str) -> (r: String)
    ensures
        r@ == s@,
{
    let v = chars_of(s);
    string_of(&v)
}

/// `String` equality by characters.
pub fn str_eq(a: &str, b: &str) -> (r: bool)
    ensures
        r == (a@ == b@),
{
    let x = chars_of(a);
    let y = chars_of(b);
    chars_eq(&x, &y)
}

// ---- decimal formatting --------------------------------------------------------

pub open spec fn digit_char(d: nat) -> char {
    ((('0' as u32) + d) as u32) as char
}

/// Decimal digits of `n`, most significant first, without leading zeros.
pub open spec fn dec(n: nat) -> Seq<char>
    decreases n,
{
    if n < 10 {
        seq![digit_char(n)]
    } else {
        dec(n / 10).push(digit_char(n % 10))
    }
}

/// `n` zero characters.
pub open spec fn zeros(n: nat) -> Seq<char> {
    Seq::new(n, |i: int| '0')
}

/// Left-pads `s` with zeros up to width `w`.
pub open spec fn pad_zero(s: Seq<char>, w: nat) -> Seq<char> {
    if s.len() < w {
        zeros((w - s.len()) as nat) + s
    } else {
        s
    }
}

/// Rust's `{:0w}` formatting of an integer: the sign counts toward the width
/// and the zeros go after it.
pub open spec fn fmt_int_padded(n: int, w: nat) -> Seq<char> {
    if n < 0 {
        seq!['-'] + pad_zero(dec((-n) as nat), if w >= 1 {
            (w - 1) as nat
        } else {
            0nat
        })
    } else {
        pad_zero(dec(n as nat), w)
    }
}

/// Rust's `{}` formatting of an integer.
pub open spec fn fmt_int(n: int) -> Seq<char> {
    fmt_int_padded(n, 0)
}

fn digit(d: u64) -> (c: char)
    requires
        d < 10,
    ensures
        c == digit_char(d as nat),
{
    let v: u8 = (48 + d) as u8;
    v as char
}

/// Decimal digits of `n`.
pub fn dec_chars(n: u64) -> (r: Vec<char>)
    ensures
        r@ == dec(n as nat),
    decreases n,
{
    if n < 10 {
        let mut v = Vec::new();
        v.push(digit(n));
        v
    } else {
        let mut v = dec_chars(n / 10);
        v.push(digit(n % 10));
        v
    }
}

/// Decimal digits of a 128-bit `n`.
pub fn dec_chars_u128(n: u128) -> (r: Vec<char>)
    ensures
        r@ == dec(n as nat),
    decreases n,
{
    if n < 10 {
        let mut v = Vec::new();
        v.push(digit(n as u64));
        v
    } else {
        let mut v = dec_chars_u128(n / 10);
        v.push(digit((n % 10) as u64));
        v
    }
}

/// Left-pads with zeros up to width `w`.
pub fn pad_zero_vec(s: Vec<char>, w: usize) -> (r: Vec<char>)
    ensures
        r@ == pad_zero(s@, w as nat),
{
    if s.len() < w {
        let mut z: Vec<char> = Vec::new();
        let k = w - s.len();
        while z.len() < k
            invariant
                z.len() <= k,
                z@ == zeros(z.len() as nat),
            decreases k - z.len(),
        {
            z.push('0');
            proof {
                assert(z@ =~= zeros(z.len() as nat));
            }
        }
        cat(&z, &s)
    } else {
        s
    }
}

/// `format!("{:0w}", n)` for a signed 64-bit integer.
pub fn fmt_i64_padded(n: i64, w: usize) -> (r: Vec<char>)
    ensures
        r@ == fmt_int_padded(n as int, w as nat),
{
    if n < 0 {
        let m: u64 = (0i128 - n as i128) as u64;
        let digits = dec_chars(m);
        let padded = pad_zero_vec(digits, if w >= 1 {
            w - 1
        } else {
            0
        });
        let mut sign: Vec<char> = Vec::new();
        sign.push('-');
        cat(&sign, &padded)
    } else {
        pad_zero_vec(dec_chars(n as u64), w)
    }
}

/// `format!("{}", n)` for an unsigned 64-bit integer.
pub fn fmt_u64(n: u64) -> (r: Vec<char>)
    ensures
        r@ == fmt_int(n as int),
{
    pad_zero_vec(dec_chars(n), 0)
}

// ---- replacement -----------------------------------------------------------------

/// `p` occurs in `t` at position `i`.
pub open spec fn occurs_at(t: Seq<char>, p: Seq<char>, i: int) -> bool {
    0 <= i && i + p.len() <= t.len() && t.subrange(i, i + p.len()) == p
}

/// Replacement of the non-overlapping occurrences of `p` in `t[i..]`, scanning left to right.
pub open spec fn replace_from(t: Seq<char>, p: Seq<char>, r: Seq<char>, i: int) -> Seq<char>
    decreases t.len() - i,
{
    if i < 0 || i >= t.len() || p.len() == 0 {
        if 0 <= i <= t.len() {
            t.subrange(i, t.len() as int)
        } else {
            Seq::empty()
        }
    } else if occurs_at(t, p, i) {
        r + replace_from(t, p, r, i + p.len())
    } else {
        seq![t[i]] + replace_from(t, p, r, i + 1)
    }
}

/// `str::replace` for a non-empty pattern.
pub open spec fn replace_all(t: Seq<char>, p: Seq<char>, r: Seq<char>) -> Seq<char> {
    replace_from(t, p, r, 0)
}

/// Whether `p` occurs in `t` at `i`.
pub fn occurs_at_exec(t: &Vec<char>, p: &Vec<char>, i: usize) -> (b: bool)
    ensures
        b == occurs_at(t@, p@, i as int),
{
    if p.len() > t.len() || i > t.len() - p.len() {
        return false;
    }
    let mut k: usize = 0;
    while k < p.len()
        invariant
            k <= p.len(),
            i + p.len() <= t.len(),
            forall|j: int| 0 <= j < k ==> t@[i + j] == #[trigger] p@[j],
        decreases p.len() - k,
    {
        if t[i + k] != p[k] {
            proof {
                assert(t@.subrange(i as int, i + p.len())[k as int] != p@[k as int]);
            }
            return false;
        }
        k = k + 1;
    }
    proof {
        assert(t@.subrange(i as int, i + p.len()) =~= p@);
    }
    true
}

/// Replaces every non-overlapping occurrence of `p` (left to right) with `r`.
pub fn replace_vec(t: &Vec<char>, p: &Vec<char>, r: &Vec<char>) -> (out: Vec<char>)
    requires
        p.len() > 0,
    ensures
        out@ == replace_all(t@, p@, r@),
{
    let mut out: Vec<char> = Vec::new();
    let mut i: usize = 0;
    proof {
        assert(t@.subrange(0, t@.len() as int) =~= t@);
    }
    while i < t.len()
        invariant
            i <= t.len(),
            p.len() > 0,
            out@ + replace_from(t@, p@, r@, i as int) == replace_all(t@, p@, r@),
        decreases t.len() - i,
    {
        if occurs_at_exec(t, p, i) {
            let ghost before = out@;
            out = cat(&out, r);
            proof {
                assert(before + replace_from(t@, p@, r@, i as int) == before + (r@ + replace_from(
                    t@,
                    p@,
                    r@,
                    i + p@.len(),
                )));
                assert(before + (r@ + replace_from(t@, p@, r@, i + p@.len())) =~= (before + r@)
                    + replace_from(t@, p@, r@, i + p@.len()));
            }
            i = i + p.len();
        } else {
            let ghost before = out@;
            out.push(t[i]);
            proof {
                assert(before + (seq![t@[i as int]] + replace_from(t@, p@, r@, i + 1)) =~= out@
                    + replace_from(t@, p@, r@, i + 1));
            }
            i = i + 1;
        }
    }
    proof {
        assert(t@.subrange(i as int, t@.len() as int) =~= Seq::<char>::empty());
        assert(out@ + Seq::<char>::empty() =~= out@);
    }
    out
}

// ---- UTF-8 length ------------------------------------------------------------------

/// Bytes taken by one character in UTF-8.
pub open spec fn utf8_width(c: char) -> nat {
    if (c as u32) < 0x80 {
        1
    } else if (c as u32) < 0x800 {
        2
    } else if (c as u32) < 0x10000 {
        3
    } else {
        4
    }
}

/// `str::len`: the UTF-8 byte length.
pub open spec fn utf8_len(s: Seq<char>) -> nat
    decreases s.len(),
{
    if s.len() == 0 {
        0
    } else {
        utf8_len(s.drop_last()) + utf8_width(s.last())
    }
}

/// UTF-8 byte length, saturating at `u64::MAX`.
pub fn utf8_len_of(s: &Vec<char>) -> (n: u64)
    ensures
        n == if utf8_len(s@) < u64::MAX {
            utf8_len(s@)
        } else {
            u64::MAX as nat
        },
{
    let mut n: u64 = 0;
    let mut i: usize = 0;
    while i < s.len()
        invariant
            i <= s.len(),
            n == if utf8_len(s@.subrange(0, i as int)) < u64::MAX {
                utf8_len(s@.subrange(0, i as int))
            } else {
                u64::MAX as nat
            },
        decreases s.len() - i,
    {
        let u = s[i] as u32;
        let w: u64 = if u < 0x80 {
            1
        } else if u < 0x800 {
            2
        } else if u < 0x10000 {
            3
        } else {
            4
        };
        proof {
            assert(s@.subrange(0, i + 1).drop_last() =~= s@.subrange(0, i as int));
        }
        n = if n >= u64::MAX - w {
            u64::MAX
        } else {
            n + w
        };
        i = i + 1;
    }
    proof {
        assert(s@.subrange(0, i as int) =~= s@);
    }
    n
}

// ---- paths -------------------------------------------------------------------------

/// `Path::join` with a relative component, using `/` separators.
pub open spec fn path_join(base: Seq<char>, comp: Seq<char>) -> Seq<char> {
    if base.len() == 0 {
        comp
    } else if base.last() == '/' {
        base + comp
    } else {
        base + seq!['/'] + comp
    }
}

pub fn path_join_vec(base: &Vec<char>, comp: &Vec<char>) -> (r: Vec<char>)
    ensures
        r@ == path_join(base@, comp@),
{
    if base.len() == 0 {
        slice_vec(comp, 0, comp.len())
    } else if base[base.len() - 1] == '/' {
        cat(base, comp)
    } else {
        let mut sep: Vec<char> = Vec::new();
        sep.push('/');
        let b = cat(base, &sep);
        cat(&b, comp)
    }
}

/// Drops trailing characters of class `k` (`str::trim_end_matches`).
pub fn trim_end_vec(s: &Vec<char>, k: &CharClass) -> (r: Vec<char>)
    ensures
        r@ == trim_end_by(s@, class_pred(*k)),
{
    let ghost p = class_pred(*k);
    let mut b: usize = s.len();
    proof {
        assert(s@.subrange(0, b as int) =~= s@);
    }
    while b > 0 && class_matches(k, s[b - 1])
        invariant
            b <= s.len(),
            p == class_pred(*k),
            trim_end_by(s@, p) == trim_end_by(s@.subrange(0, b as int), p),
        decreases b,
    {
        proof {
            let sub = s@.subrange(0, b as int);
            assert(sub.drop_last() =~= s@.subrange(0, b - 1));
        }
        b = b - 1;
    }
    proof {
        let sub = s@.subrange(0, b as int);
        if b == 0 {
            assert(sub.len() == 0);
        }
    }
    slice_vec(s, 0, b)
}

/// `s` begins with `p`.
pub open spec fn starts_with_seq(s: Seq<char>, p: Seq<char>) -> bool {
    p.len() <= s.len() && s.subrange(0, p.len() as int) == p
}

pub fn starts_with_vec(s: &Vec<char>, p: &Vec<char>) -> (r: bool)
    ensures
        r == starts_with_seq(s@, p@),
{
    if p.len() > s.len() {
        return false;
    }
    let head = slice_vec(s, 0, p.len());
    chars_eq(&head, p)
}

/// `str::strip_prefix`.
pub fn strip_prefix_vec(s: &Vec<char>, p: &Vec<char>) -> (r: Option<Vec<char>>)
    ensures
        match r {
            None => !starts_with_seq(s@, p@),
            Some(rest) => starts_with_seq(s@, p@) && rest@ == s@.subrange(p@.len() as int, s@.len() as int),
        },
{
    if starts_with_vec(s, p) {
        Some(slice_vec(s, p.len(), s.len()))
    } else {
        None
    }
}

/// Index of the first `c` in `s`.
pub fn first_index_char(s: &Vec<char>, c: char) -> (r: Option<usize>)
    ensures
        match r {
            None => !s@.contains(c),
            Some(i) => i < s.len() && s@[i as int] == c && forall|j: int| 0 <= j < i ==> s@[j] != c,
        },
{
    let mut i: usize = 0;
    while i < s.len()
        invariant
            i <= s.len(),
            forall|j: int| 0 <= j < i ==> s@[j] != c,
        decreases s.len() - i,
    {
        if s[i] == c {
            return Some(i);
        }
        i = i + 1;
    }
    None
}

/// Index of the first `c` in `s`.
pub open spec fn first_index_of(s: Seq<char>, c: char) -> Option<int>
    decreases s.len(),
{
    if s.len() == 0 {
        None
    } else if s[0] == c {
        Some(0)
    } else {
        match first_index_of(s.drop_first(), c) {
            Some(i) => Some(i + 1),
            None => None,
        }
    }
}

pub proof fn lemma_first_index_of(s: Seq<char>, c: char)
    ensures
        match first_index_of(s, c) {
            Some(i) => 0 <= i < s.len() && s[i] == c && forall|j: int| 0 <= j < i ==> s[j] != c,
            None => forall|j: int| 0 <= j < s.len() ==> s[j] != c,
        },
    decreases s.len(),
{
    if s.len() > 0 && s[0] != c {
        lemma_first_index_of(s.drop_first(), c);
        match first_index_of(s.drop_first(), c) {
            Some(i) => {
                assert forall|j: int| 0 <= j < i + 1 implies s[j] != c by {
                    if j > 0 {
                        assert(s[j] == s.drop_first()[j - 1]);
                    }
                }
            },
            None => {
                assert forall|j: int| 0 <= j < s.len() implies s[j] != c by {
                    if j > 0 {
                        assert(s[j] == s.drop_first()[j - 1]);
                    }
                }
            },
        }
    }
}

/// `first_index_of` computed.
pub fn find_char(s: &Vec<char>, c: char) -> (r: Option<usize>)
    ensures
        match r {
            None => first_index_of(s@, c) is None,
            Some(i) => first_index_of(s@, c) == Some(i as int) && i < s.len(),
        },
{
    let r = first_index_char(s, c);
    proof {
        lemma_first_index_of(s@, c);
        match first_index_of(s@, c) {
            Some(k) => {
                assert(s@.contains(c)) by {
                    assert(s@[k] == c);
                }
                if let Some(i) = r {
                    if (i as int) < k {
                        assert(s@[i as int] != c);
                    } else if (i as int) > k {
                        assert(s@[k] != c);
                    }
                }
            },
            None => {
                if let Some(i) = r {
                    assert(s@[i as int] != c);
                }
            },
        }
    }
    r
}

/// The part of `s` before its first `c` (all of `s` when it has none).
pub open spec fn before_first(s: Seq<char>, c: char) -> Seq<char> {
    match first_index_of(s, c) {
        Some(i) => s.subrange(0, i),
        None => s,
    }
}

pub fn before_first_vec(s: &Vec<char>, c: char) -> (r: Vec<char>)
    ensures
        r@ == before_first(s@, c),
{
    match find_char(s, c) {
        Some(i) => slice_vec(s, 0, i),
        None => slice_vec(s, 0, s.len()),
    }
}

/// The text `{:?}` gives for a string: quoted, with `char::escape_debug` escapes.
pub uninterp spec fn debug_text(s: Seq<char>) -> Seq<char>;

/// `format!("{:?}", s)` for a `str` (std's `Debug`); the result depends on the
/// characters of `s` alone.
#[verifier::external_body]
pub(crate) fn debug_quoted(s: &str) -> (r: String)
    ensures
        r@ == debug_text(s@),
{
    format!("{:?}", s)
}

/// The string at `key` of the top-level JSON object in `text`, if there is one.
pub uninterp spec fn json_string_field_of(text: Seq<char>, key: Seq<char>) -> Option<Seq<char>>;

/// Parses `text` with `serde_json` into a `Value` and reads the string at
/// `key` of the top-level object: none when the text is not JSON, the field is
/// missing or it is not a string. The result depends on the text and key alone.
#[verifier::external_body]
pub(crate) fn json_string_field(text: &str, key: &str) -> (r: Option<String>)
    ensures
        match r {
            Some(s) => json_string_field_of(text@, key@) == Some(s@),
            None => json_string_field_of(text@, key@) is None,
        },
{
    match serde_json::from_str::<serde_json::Value>(text) {
        Ok(value) => match value.get(key) {
            Some(field) => match field.as_str() {
                Some(s) => Some(s.to_string()),
                None => None,
            },
            None => None,
        },
        Err(_) => None,
    }
}

/// The JSON text of a string (quoted, with JSON escapes), when encoding succeeds.
pub uninterp spec fn json_string_encoding(s: Seq<char>) -> Option<Seq<char>>;

/// `serde_json::to_string` of a `str`; an encoding error is reported as none.
#[verifier::external_body]
pub(crate) fn json_quote(s: &str) -> (r: Option<String>)
    ensures
        match r {
            Some(t) => json_string_encoding(s@) == Some(t@),
            None => json_string_encoding(s@) is None,
        },
{
    match serde_json::to_string(s) {
        Ok(t) => Some(t),
        Err(_) => None,
    }
}

} // verus!
