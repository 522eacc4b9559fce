//! The coercion ladder: the most specific scalar a raw value spells.
use vstd::prelude::*;
use vstd::string::*;
use crate::text::str_eq;
use crate::value::{Scalar, Value};

verus! {

/// How a single character is recognised.
#[derive(Debug, Clone, Copy, PartialEq, Eq, Structural)]
pub enum CharPolicy {
    /// A value of exactly one character, unquoted (`x`).
    Bare,
    /// One character between single quotes (`'x'`).
    Quoted,
}

pub open spec fn is_digit(c: char) -> bool {
    48 <= (c as u32) && (c as u32) <= 57
}

pub open spec fn all_digits(s: Seq<char>) -> bool {
    forall|i: int| 0 <= i < s.len() ==> is_digit(#[trigger] s[i])
}

/// The number that a string of decimal digits spells.
pub open spec fn digits_val(s: Seq<char>) -> int
    decreases s.len(),
{
    if s.len() == 0 {
        0
    } else {
        digits_val(s.drop_last()) * 10 + ((s.last() as u32) as int - 48)
    }
}

/// `s` without one leading `+` or `-`.
pub open spec fn strip_sign(s: Seq<char>) -> Seq<char> {
    if s.len() > 0 && (s[0] == '+' || s[0] == '-') {
        s.drop_first()
    } else {
        s
    }
}

/// What `str::parse::<bool>` returns: only the exact words `true` and `false`.
pub open spec fn spec_parse_bool(s: Seq<char>) -> Option<bool> {
    if s == "true"@ {
        Some(true)
    } else if s == "false"@ {
        Some(false)
    } else {
        None
    }
}

/// What `str::parse::<i32>` returns: an optional sign, then one or more
/// decimal digits, whose value fits in an `i32`.
pub open spec fn spec_parse_i32(s: Seq<char>) -> Option<i32> {
    let body = strip_sign(s);
    let v = if s.len() > 0 && s[0] == '-' {
        -digits_val(body)
    } else {
        digits_val(body)
    };
    if body.len() > 0 && all_digits(body) && i32::MIN <= v && v <= i32::MAX {
        Some(v as i32)
    } else {
        None
    }
}

/// ASCII letters folded to lower case, as code points.
pub open spec fn ascii_lower(c: char) -> int {
    if 65 <= (c as u32) && (c as u32) <= 90 {
        (c as u32) + 32
    } else {
        c as u32 as int
    }
}

/// `s` equals the lower-case word `w` up to ASCII case.
pub open spec fn eq_ignore_case(s: Seq<char>, w: Seq<char>) -> bool {
    s.len() == w.len() && forall|i: int| 0 <= i < s.len() ==> ascii_lower(#[trigger] s[i]) == (
    w[i] as u32) as int
}

/// How many times `c` occurs in `s`.
pub open spec fn count_of(s: Seq<char>, c: char) -> nat
    decreases s.len(),
{
    if s.len() == 0 {
        0
    } else {
        count_of(s.drop_last(), c) + if s.last() == c {
            1nat
        } else {
            0nat
        }
    }
}

/// Digits with at most one `.`, and at least one digit.
pub open spec fn is_mantissa(m: Seq<char>) -> bool {
    &&& m.len() > 0
    &&& forall|i: int| 0 <= i < m.len() ==> is_digit(#[trigger] m[i]) || m[i] == '.'
    &&& count_of(m, '.') <= 1
    &&& !(m.len() == 1 && m[0] == '.')
}

/// An optional sign and one or more digits.
pub open spec fn is_exponent(x: Seq<char>) -> bool {
    strip_sign(x).len() > 0 && all_digits(strip_sign(x))
}

pub open spec fn is_exp_marker(c: char) -> bool {
    c == 'e' || c == 'E'
}

/// Index of the first `e` or `E` in `s`, or `s.len()`.
pub open spec fn first_exp_marker(s: Seq<char>) -> int
    decreases s.len(),
{
    if s.len() == 0 {
        0
    } else if is_exp_marker(s[0]) {
        0
    } else {
        1 + first_exp_marker(s.drop_first())
    }
}

/// A mantissa, then optionally an `e`/`E` and an exponent.
pub open spec fn is_number(b: Seq<char>) -> bool {
    let k = first_exp_marker(b);
    if k == b.len() {
        is_mantissa(b)
    } else {
        is_mantissa(b.subrange(0, k)) && is_exponent(b.subrange(k + 1, b.len() as int))
    }
}

/// The strings that std's `f64` parser accepts: an optional sign, then
/// `inf`, `infinity` or `nan` in any ASCII case, or a decimal number.
pub open spec fn is_float_literal(s: Seq<char>) -> bool {
    let b = strip_sign(s);
    eq_ignore_case(b, "inf"@) || eq_ignore_case(b, "infinity"@) || eq_ignore_case(b, "nan"@)
        || is_number(b)
}

/// The character a raw value stands for under `policy`, if any.
pub open spec fn spec_char(s: Seq<char>, policy: CharPolicy) -> Option<char> {
    match policy {
        CharPolicy::Bare => if s.len() == 1 {
            Some(s[0])
        } else {
            None
        },
        CharPolicy::Quoted => if s.len() == 3 && s[0] == '\'' && s[2] == '\'' {
            Some(s[1])
        } else {
            None
        },
    }
}

/// The ladder: boolean, then integer, then float, then character, and the
/// text itself when nothing else matches.
pub open spec fn spec_coerce(s: Seq<char>, policy: CharPolicy) -> Scalar {
    if let Some(b) = spec_parse_bool(s) {
        Scalar::Bool(b)
    } else if let Some(i) = spec_parse_i32(s) {
        Scalar::Int(i)
    } else if is_float_literal(s) {
        Scalar::Flt(s)
    } else if let Some(c) = spec_char(s, policy) {
        Scalar::Chr(c)
    } else {
        Scalar::Str(s)
    }
}

proof fn lemma_digits_val_nonneg(s: Seq<char>)
    requires
        all_digits(s),
    ensures
        digits_val(s) >= 0,
    decreases s.len(),
{
    if s.len() > 0 {
        assert(is_digit(s[s.len() - 1]));
        lemma_digits_val_nonneg(s.drop_last());
    }
}

fn is_digit_char(c: char) -> (r: bool)
    ensures
        r == is_digit(c),
{
    let n = c as u32;
    48 <= n && n <= 57
}

/// Parses a boolean the way `str::parse::<bool>` does.
pub fn parse_bool(s: &str) -> (r: Option<bool>)
    ensures
        r == spec_parse_bool(s@),
{
    if str_eq(s, "true") {
        Some(true)
    } else if str_eq(s, "false") {
        Some(false)
    } else {
        None
    }
}

/// Parses a base-10 `i32` the way `str::parse::<i32>` does.
pub fn parse_i32(s: &str) -> (r: Option<i32>)
    ensures
        r == spec_parse_i32(s@),
{
    let n = s.unicode_len();
    if n == 0 {
        return None;
    }
    let c0 = s.get_char(0);
    let neg = c0 == '-';
    let start: usize = if c0 == '-' || c0 == '+' {
        1
    } else {
        0
    };
    let ghost body = strip_sign(s@);
    assert(body =~= s@.subrange(start as int, n as int));
    if start == n {
        return None;
    }
    let cap: i64 = 2147483649;
    let mut acc: i64 = 0;
    let mut i: usize = start;
    while i < n
        invariant
            n == s@.len(),
            start <= i <= n,
            body == s@.subrange(start as int, n as int),
            body == strip_sign(s@),
            neg == (s@[0] == '-'),
            cap == 2147483649,
            0 <= acc <= cap,
            all_digits(s@.subrange(start as int, i as int)),
            acc == if digits_val(s@.subrange(start as int, i as int)) < cap {
                digits_val(s@.subrange(start as int, i as int))
            } else {
                cap as int
            },
        decreases n - i,
    {
        let c = s.get_char(i);
        if !is_digit_char(c) {
            assert(body[i - start] == c);
            assert(!is_digit(body[i - start]));
            assert(!all_digits(body));
            return None;
        }
        let ghost pre = s@.subrange(start as int, i as int);
        let ghost next = s@.subrange(start as int, i + 1);
        assert(next.drop_last() =~= pre);
        proof {
            lemma_digits_val_nonneg(pre);
        }
        let d = (c as u32 - 48) as i64;
        if acc >= cap {
            acc = cap;
        } else {
            let t = acc * 10 + d;
            acc = if t >= cap {
                cap
            } else {
                t
            };
        }
        i = i + 1;
    }
    assert(s@.subrange(start as int, n as int) == body);
    if neg {
        if acc <= 2147483648 {
            Some((-acc) as i32)
        } else {
            None
        }
    } else {
        if acc <= 2147483647 {
            Some(acc as i32)
        } else {
            None
        }
    }
}

fn all_digits_str(s: &str) -> (r: bool)
    ensures
        r == all_digits(s@),
{
    let n = s.unicode_len();
    let mut i: usize = 0;
    while i < n
        invariant
            n == s@.len(),
            i <= n,
            forall|k: int| 0 <= k < i ==> is_digit(#[trigger] s@[k]),
        decreases n - i,
    {
        if !is_digit_char(s.get_char(i)) {
            return false;
        }
        i = i + 1;
    }
    true
}

fn strip_sign_str(s: &str) -> (r: &str)
    ensures
        r@ == strip_sign(s@),
{
    let n = s.unicode_len();
    if n > 0 {
        let c = s.get_char(0);
        if c == '+' || c == '-' {
            let r = s.substring_char(1, n);
            assert(r@ =~= s@.drop_first());
            return r;
        }
    }
    s
}

fn eq_ignore_case_str(s: &str, w: &str) -> (r: bool)
    ensures
        r == eq_ignore_case(s@, w@),
{
    let n = s.unicode_len();
    if n != w.unicode_len() {
        return false;
    }
    let mut i: usize = 0;
    while i < n
        invariant
            n == s@.len() == w@.len(),
            i <= n,
            forall|k: int| 0 <= k < i ==> ascii_lower(#[trigger] s@[k]) == (w@[k] as u32) as int,
        decreases n - i,
    {
        let c = s.get_char(i) as u32;
        let lc = if 65 <= c && c <= 90 {
            c + 32
        } else {
            c
        };
        if lc != w.get_char(i) as u32 {
            return false;
        }
        i = i + 1;
    }
    true
}

fn is_mantissa_str(m: &str) -> (r: bool)
    ensures
        r == is_mantissa(m@),
{
    let n = m.unicode_len();
    if n == 0 {
        return false;
    }
    if n == 1 && m.get_char(0) == '.' {
        return false;
    }
    let mut dots: usize = 0;
    let mut i: usize = 0;
    while i < n
        invariant
            n == m@.len(),
            i <= n,
            dots <= 1,
            dots == count_of(m@.subrange(0, i as int), '.'),
            forall|k: int| 0 <= k < i ==> is_digit(#[trigger] m@[k]) || m@[k] == '.',
        decreases n - i,
    {
        let c = m.get_char(i);
        assert(m@.subrange(0, i + 1).drop_last() =~= m@.subrange(0, i as int));
        if c == '.' {
            if dots == 1 {
                proof {
                    lemma_count_prefix(m@, i + 1, '.');
                }
                return false;
            }
            dots = dots + 1;
        } else if !is_digit_char(c) {
            return false;
        }
        i = i + 1;
    }
    assert(m@.subrange(0, n as int) =~= m@);
    true
}

/// A prefix never holds more of `c` than the whole.
proof fn lemma_count_prefix(s: Seq<char>, k: int, c: char)
    requires
        0 <= k <= s.len(),
    ensures
        count_of(s.subrange(0, k), c) <= count_of(s, c),
    decreases s.len() - k,
{
    if k < s.len() {
        lemma_count_prefix(s, k + 1, c);
        assert(s.subrange(0, k + 1).drop_last() =~= s.subrange(0, k));
    } else {
        assert(s.subrange(0, k) =~= s);
    }
}

fn is_exponent_str(x: &str) -> (r: bool)
    ensures
        r == is_exponent(x@),
{
    let d = strip_sign_str(x);
    d.unicode_len() > 0 && all_digits_str(d)
}

fn first_exp_marker_str(s: &str) -> (r: usize)
    ensures
        r == first_exp_marker(s@),
        r <= s@.len(),
{
    let n = s.unicode_len();
    let mut i: usize = 0;
    assert(s@.subrange(0, n as int) =~= s@);
    while i < n
        invariant
            n == s@.len(),
            i <= n,
            first_exp_marker(s@) == i + first_exp_marker(s@.subrange(i as int, n as int)),
        decreases n - i,
    {
        let c = s.get_char(i);
        if c == 'e' || c == 'E' {
            return i;
        }
        assert(s@.subrange(i as int, n as int).drop_first() =~= s@.subrange(i + 1, n as int));
        i = i + 1;
    }
    i
}

fn is_number_str(b: &str) -> (r: bool)
    ensures
        r == is_number(b@),
{
    let n = b.unicode_len();
    let k = first_exp_marker_str(b);
    if k == n {
        is_mantissa_str(b)
    } else {
        is_mantissa_str(b.substring_char(0, k)) && is_exponent_str(b.substring_char(k + 1, n))
    }
}

/// Whether std's `f64` parser accepts `s`.
pub fn is_float_text(s: &str) -> (r: bool)
    ensures
        r == is_float_literal(s@),
{
    let b = strip_sign_str(s);
    eq_ignore_case_str(b, "inf") || eq_ignore_case_str(b, "infinity") || eq_ignore_case_str(
        b,
        "nan",
    ) || is_number_str(b)
}

/// The character `s` stands for under `policy`, if any.
pub fn char_of(s: &str, policy: CharPolicy) -> (r: Option<char>)
    ensures
        r == spec_char(s@, policy),
{
    let n = s.unicode_len();
    match policy {
        CharPolicy::Bare => if n == 1 {
            Some(s.get_char(0))
        } else {
            None
        },
        CharPolicy::Quoted => if n == 3 && s.get_char(0) == '\'' && s.get_char(2) == '\'' {
            Some(s.get_char(1))
        } else {
            None
        },
    }
}

/// Gives a raw (already trimmed) value its type: the first of boolean,
/// integer, float and character that accepts it, else the text itself.
pub fn coerce(raw: &str, policy: CharPolicy) -> (r: Value)
    ensures
        r@ == spec_coerce(raw@, policy),
{
    if let Some(b) = parse_bool(raw) {
        Value::Boolean(b)
    } else if let Some(i) = parse_i32(raw) {
        Value::Integer(i)
    } else if is_float_text(raw) {
        Value::Float(String::from_str(raw))
    } else if let Some(c) = char_of(raw, policy) {
        Value::Char(c)
    } else {
        Value::String(String::from_str(raw))
    }
}

} // verus!
