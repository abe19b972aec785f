//! Verified scanning primitives shared by the parsers of this crate:
//! splitting a string on a separator character and radix-based unsigned
//! integer parsing with exact overflow behaviour.

use vstd::prelude::*;
use vstd::string::*;

verus! {

/// Numeric value of `c` as a digit (`'0'..='9'`, `'a'..='z'`, `'A'..='Z'`);
/// 255 when `c` can be a digit in no supported radix. A character is a valid
/// digit in radix `r` exactly when `digit_val(c) < r`.
pub open spec fn digit_val(c: char) -> int {
    let v = c as u32;
    if 48 <= v && v <= 57 {
        v - 48
    } else if 97 <= v && v <= 122 {
        v - 97 + 10
    } else if 65 <= v && v <= 90 {
        v - 65 + 10
    } else {
        255
    }
}

/// Every character of `s` is a digit in radix `radix`.
pub open spec fn all_digits(s: Seq<char>, radix: int) -> bool {
    forall|i: int| 0 <= i < s.len() ==> digit_val(s[i]) < radix
}

/// The integer denoted by the digit string `s` in radix `radix`,
/// most significant digit first.
pub open spec fn digits_val(s: Seq<char>, radix: int) -> int
    decreases s.len(),
{
    if s.len() == 0 {
        0
    } else {
        digits_val(s.drop_last(), radix) * radix + digit_val(s.last())
    }
}

pub proof fn lemma_digits_val_nonneg(s: Seq<char>, radix: int)
    requires
        radix >= 2,
    ensures
        digits_val(s, radix) >= 0,
    decreases s.len(),
{
    if s.len() > 0 {
        lemma_digits_val_nonneg(s.drop_last(), radix);
        assert(digits_val(s.drop_last(), radix) * radix >= 0) by (nonlinear_arith)
            requires
                digits_val(s.drop_last(), radix) >= 0,
                radix >= 2,
        ;
    }
}

/// Appending one digit multiplies the value by the radix and adds the digit.
pub proof fn lemma_digits_val_push(s: Seq<char>, i: int, radix: int)
    requires
        0 <= i < s.len(),
    ensures
        digits_val(s.subrange(0, i + 1), radix) == digits_val(s.subrange(0, i), radix) * radix
            + digit_val(s[i]),
{
    let p = s.subrange(0, i + 1);
    assert(p.drop_last() =~= s.subrange(0, i));
    assert(p.last() == s[i]);
}

/// The value of a digit string is no less than the value of any of its
/// prefixes.
pub proof fn lemma_digits_val_prefix_le(s: Seq<char>, i: int, radix: int)
    requires
        radix >= 2,
        0 <= i <= s.len(),
    ensures
        digits_val(s.subrange(0, i), radix) <= digits_val(s, radix),
    decreases s.len() - i,
{
    if i == s.len() {
        assert(s.subrange(0, i) =~= s);
    } else {
        lemma_digits_val_push(s, i, radix);
        lemma_digits_val_nonneg(s.subrange(0, i), radix);
        let v = digits_val(s.subrange(0, i), radix);
        assert(v * radix >= v) by (nonlinear_arith)
            requires
                v >= 0,
                radix >= 2,
        ;
        assert(digit_val(s[i]) >= 0);
        lemma_digits_val_prefix_le(s, i + 1, radix);
    }
}

/// Exact digit value of a character, 255 for non-digits.
pub fn digit_of(c: char) -> (d: u32)
    ensures
        d == digit_val(c),
{
    let v = c as u32;
    if 48 <= v && v <= 57 {
        v - 48
    } else if 97 <= v && v <= 122 {
        v - 97 + 10
    } else if 65 <= v && v <= 90 {
        v - 65 + 10
    } else {
        255
    }
}

/// Parses `s` as an unsigned integer in the given radix. Returns the exact
/// value when every character is a digit of the radix and the value fits in
/// 64 bits; `None` on an empty string, a non-digit, or overflow.
pub fn parse_u64_radix(s: &str, radix: u32) -> (r: Option<u64>)
    requires
        radix == 2 || radix == 10 || radix == 16,
    ensures
        match r {
            Some(v) => s@.len() > 0 && all_digits(s@, radix as int) && v == digits_val(
                s@,
                radix as int,
            ),
            None => s@.len() == 0 || !all_digits(s@, radix as int) || digits_val(
                s@,
                radix as int,
            ) > u64::MAX,
        },
{
    let n = s.unicode_len();
    if n == 0 {
        return None;
    }
    let mut acc: u64 = 0;
    let mut i: usize = 0;
    while i < n
        invariant
            radix == 2 || radix == 10 || radix == 16,
            i <= n,
            n == s@.len(),
            all_digits(s@.subrange(0, i as int), radix as int),
            acc == digits_val(s@.subrange(0, i as int), radix as int),
        decreases n - i,
    {
        let c = s.get_char(i);
        let d = digit_of(c);
        if d >= radix {
            assert(!all_digits(s@, radix as int));
            return None;
        }
        let limit = (u64::MAX - d as u64) / radix as u64;
        proof {
            lemma_digits_val_push(s@, i as int, radix as int);
        }
        if acc > limit {
            proof {
                let q = limit as int;
                let m = u64::MAX - d;
                vstd::arithmetic::div_mod::lemma_fundamental_div_mod(m as int, radix as int);
                assert(acc * radix > m) by (nonlinear_arith)
                    requires
                        acc > q,
                        radix >= 2,
                        m == q * radix + m % (radix as int),
                        0 <= m % (radix as int) < radix,
                ;
                assert(digits_val(s@.subrange(0, i as int + 1), radix as int) > u64::MAX);
                lemma_digits_val_prefix_le(s@, i as int + 1, radix as int);
            }
            return None;
        }
        proof {
            let q = limit as int;
            let m = u64::MAX - d;
            vstd::arithmetic::div_mod::lemma_fundamental_div_mod(m as int, radix as int);
            assert(acc * radix <= m) by (nonlinear_arith)
                requires
                    0 <= acc <= q,
                    radix >= 2,
                    m == q * radix + m % (radix as int),
                    0 <= m % (radix as int) < radix,
            ;
        }
        acc = acc * radix as u64 + d as u64;
        proof {
            assert(s@.subrange(0, i as int + 1).subrange(0, i as int) =~= s@.subrange(0, i as int));
        }
        i += 1;
    }
    proof {
        assert(s@.subrange(0, n as int) =~= s@);
    }
    Some(acc)
}

/// How a string splits on a separator character: the separator is dropped,
/// adjacent separators yield empty pieces, and the empty string splits into
/// one empty piece.
pub open spec fn spec_split(s: Seq<char>, sep: char) -> Seq<Seq<char>>
    decreases s.len(),
{
    if s.len() == 0 {
        seq![Seq::<char>::empty()]
    } else if s[0] == sep {
        seq![Seq::<char>::empty()] + spec_split(s.subrange(1, s.len() as int), sep)
    } else {
        let rest = spec_split(s.subrange(1, s.len() as int), sep);
        seq![seq![s[0]] + rest[0]] + rest.subrange(1, rest.len() as int)
    }
}

pub proof fn lemma_split_len(s: Seq<char>, sep: char)
    ensures
        spec_split(s, sep).len() >= 1,
    decreases s.len(),
{
    if s.len() > 0 {
        lemma_split_len(s.subrange(1, s.len() as int), sep);
    }
}

/// A string without the separator splits into just itself.
pub proof fn lemma_split_no_sep(s: Seq<char>, sep: char)
    requires
        forall|j: int| 0 <= j < s.len() ==> s[j] != sep,
    ensures
        spec_split(s, sep) =~~= seq![s],
    decreases s.len(),
{
    if s.len() > 0 {
        let tail = s.subrange(1, s.len() as int);
        lemma_split_no_sep(tail, sep);
        lemma_split_len(tail, sep);
        assert(seq![s[0]] + tail =~= s);
    }
}

/// Splitting at the first separator occurrence: the piece before it, then
/// the split of what follows it.
pub proof fn lemma_split_at_sep(s: Seq<char>, sep: char, i: int)
    requires
        0 <= i < s.len(),
        s[i] == sep,
        forall|j: int| 0 <= j < i ==> s[j] != sep,
    ensures
        spec_split(s, sep) =~~= seq![s.subrange(0, i)] + spec_split(
            s.subrange(i + 1, s.len() as int),
            sep,
        ),
    decreases i,
{
    let tail = s.subrange(1, s.len() as int);
    if i == 0 {
        assert(s.subrange(0, 0) =~= Seq::<char>::empty());
        assert(s.subrange(1, s.len() as int) =~= tail);
    } else {
        lemma_split_at_sep(tail, sep, i - 1);
        lemma_split_len(tail, sep);
        let rest = spec_split(tail, sep);
        assert(tail.subrange(0, i - 1) =~= s.subrange(1, i));
        assert(tail.subrange(i, tail.len() as int) =~= s.subrange(i + 1, s.len() as int));
        assert(rest[0] == s.subrange(1, i));
        assert(seq![s[0]] + s.subrange(1, i) =~= s.subrange(0, i));
        assert(rest.subrange(1, rest.len() as int) =~~= spec_split(
            s.subrange(i + 1, s.len() as int),
            sep,
        ));
    }
}

/// An ASCII whitespace character: the token separators of the formats
/// this crate parses.
pub open spec fn spec_is_space(c: char) -> bool {
    c == ' ' || c == '\t' || c == '\n' || c == '\r' || (c as u32) == 11 || (c as u32) == 12
}

/// Exact executable form of [`spec_is_space`].
pub fn is_space(c: char) -> (r: bool)
    ensures
        r == spec_is_space(c),
{
    let v = c as u32;
    v == 32 || v == 9 || v == 10 || v == 13 || v == 11 || v == 12
}

/// How a string splits into whitespace-separated tokens: the maximal runs
/// of non-space characters, in order, with nothing for leading, trailing
/// or repeated whitespace.
pub open spec fn spec_split_ws(s: Seq<char>) -> Seq<Seq<char>>
    decreases s.len(),
{
    if s.len() == 0 {
        Seq::empty()
    } else if spec_is_space(s[0]) {
        spec_split_ws(s.subrange(1, s.len() as int))
    } else if s.len() == 1 {
        seq![seq![s[0]]]
    } else if spec_is_space(s[1]) {
        seq![seq![s[0]]] + spec_split_ws(s.subrange(1, s.len() as int))
    } else {
        let rest = spec_split_ws(s.subrange(1, s.len() as int));
        seq![seq![s[0]] + rest[0]] + rest.subrange(1, rest.len() as int)
    }
}

/// A string starting with a non-space splits into at least one token.
pub proof fn lemma_split_ws_len_pos(s: Seq<char>)
    requires
        s.len() > 0,
        !spec_is_space(s[0]),
    ensures
        spec_split_ws(s).len() >= 1,
{
}

/// A token run of length `e` at the front comes off in one piece.
pub proof fn lemma_split_ws_token(t: Seq<char>, e: int)
    requires
        0 < e <= t.len(),
        forall|k: int| 0 <= k < e ==> !spec_is_space(t[k]),
        e < t.len() ==> spec_is_space(t[e]),
    ensures
        spec_split_ws(t) =~~= seq![t.subrange(0, e)] + spec_split_ws(
            t.subrange(e, t.len() as int),
        ),
    decreases e,
{
    let tail = t.subrange(1, t.len() as int);
    if e == 1 {
        if t.len() == 1 {
            assert(t.subrange(0, 1) =~= seq![t[0]]);
            assert(t.subrange(1, t.len() as int).len() == 0);
        } else {
            assert(spec_is_space(t[1]));
            assert(t.subrange(0, 1) =~= seq![t[0]]);
        }
    } else {
        lemma_split_ws_token(tail, e - 1);
        lemma_split_ws_len_pos(tail);
        let rest = spec_split_ws(tail);
        assert(tail.subrange(0, e - 1) =~= t.subrange(1, e));
        assert(tail.subrange(e - 1, tail.len() as int) =~= t.subrange(e, t.len() as int));
        assert(rest[0] == t.subrange(1, e));
        assert(seq![t[0]] + t.subrange(1, e) =~= t.subrange(0, e));
        assert(rest.subrange(1, rest.len() as int) =~~= spec_split_ws(
            t.subrange(e, t.len() as int),
        ));
    }
}

/// Splits `s` into whitespace-separated tokens, exactly as
/// [`spec_split_ws`] describes.
pub fn split_ws(s: &str) -> (parts: Vec<String>)
    ensures
        parts@.map_values(|p: String| p@) == spec_split_ws(s@),
    decreases s@.len(),
{
    let n = s.unicode_len();
    let mut i: usize = 0;
    proof {
        assert(s@.subrange(0, n as int) =~= s@);
    }
    while i < n && is_space(s.get_char(i))
        invariant
            i <= n,
            n == s@.len(),
            spec_split_ws(s@) == spec_split_ws(s@.subrange(i as int, n as int)),
        decreases n - i,
    {
        proof {
            assert(s@.subrange(i as int, n as int).subrange(1, (n - i) as int) =~= s@.subrange(
                i as int + 1,
                n as int,
            ));
        }
        i += 1;
    }
    if i == n {
        proof {
            assert(s@.subrange(n as int, n as int).len() == 0);
        }
        let parts: Vec<String> = Vec::new();
        proof {
            assert(parts@.map_values(|p: String| p@) =~~= spec_split_ws(s@));
        }
        return parts;
    }
    let mut j: usize = i;
    while j < n && !is_space(s.get_char(j))
        invariant
            i <= j <= n,
            n == s@.len(),
            forall|k: int| i <= k < j ==> !spec_is_space(s@[k]),
        decreases n - j,
    {
        j += 1;
    }
    let token = s.substring_char(i, j);
    let rest = s.substring_char(j, n);
    let mut parts = split_ws(rest);
    parts.insert(0, token.to_owned());
    proof {
        let t = s@.subrange(i as int, n as int);
        lemma_split_ws_token(t, j - i);
        assert(t.subrange(0, j - i) =~= s@.subrange(i as int, j as int));
        assert(t.subrange(j - i, t.len() as int) =~= s@.subrange(j as int, n as int));
        assert(parts@.map_values(|p: String| p@) =~~= spec_split_ws(s@));
    }
    parts
}

/// An optional leading plus sign removed, as the integer parsers of the
/// standard library accept it.
pub open spec fn spec_strip_plus(s: Seq<char>) -> Seq<char> {
    if s.len() > 0 && s[0] == '+' {
        s.subrange(1, s.len() as int)
    } else {
        s
    }
}

/// The digit body is well-formed for the radix: nonempty after an optional
/// plus sign, digits of the radix throughout.
pub open spec fn spec_u64_shape_ok(s: Seq<char>, radix: int) -> bool {
    spec_strip_plus(s).len() > 0 && all_digits(spec_strip_plus(s), radix)
}

/// The value of the digit body.
pub open spec fn spec_u64_value(s: Seq<char>, radix: int) -> int {
    digits_val(spec_strip_plus(s), radix)
}

/// Parses a digit body with an optional leading plus sign; exact value on
/// success, the failure told apart as shape (no digits) or range
/// (overflow).
pub fn parse_u64_body(s: &str, radix: u32) -> (r: Result<u64, bool>)
    requires
        radix == 2 || radix == 10 || radix == 16,
    ensures
        match r {
            Ok(v) => spec_u64_shape_ok(s@, radix as int) && v == spec_u64_value(
                s@,
                radix as int,
            ),
            Err(overflow) => if overflow {
                spec_u64_shape_ok(s@, radix as int) && spec_u64_value(s@, radix as int) > u64::MAX
            } else {
                !spec_u64_shape_ok(s@, radix as int)
            },
        },
{
    let n = s.unicode_len();
    let body: &str = if n > 0 && s.get_char(0) == '+' {
        s.substring_char(1, n)
    } else {
        s
    };
    proof {
        assert(body@ == spec_strip_plus(s@));
    }
    if body.unicode_len() == 0 {
        return Err(false);
    }
    match parse_u64_radix(body, radix) {
        Some(v) => Ok(v),
        None => {
            // the body is nonempty, so the parser failed on a non-digit
            // or on overflow
            if all_digits_exec(body, radix) {
                Err(true)
            } else {
                Err(false)
            }
        },
    }
}

/// Exact executable form of [`all_digits`].
pub fn all_digits_exec(s: &str, radix: u32) -> (r: bool)
    ensures
        r == all_digits(s@, radix as int),
{
    let n = s.unicode_len();
    let mut i: usize = 0;
    while i < n
        invariant
            i <= n,
            n == s@.len(),
            forall|j: int| 0 <= j < i ==> digit_val(s@[j]) < radix,
        decreases n - i,
    {
        if digit_of(s.get_char(i)) >= radix {
            return false;
        }
        i += 1;
    }
    true
}

/// Character-wise string equality.
pub fn str_eq(a: &str, b: &str) -> (r: bool)
    ensures
        r == (a@ == b@),
{
    let n = a.unicode_len();
    if n != b.unicode_len() {
        proof {
            assert(a@ != b@);
        }
        return false;
    }
    let mut i: usize = 0;
    while i < n
        invariant
            i <= n,
            n == a@.len(),
            n == b@.len(),
            forall|j: int| 0 <= j < i ==> a@[j] == b@[j],
        decreases n - i,
    {
        if a.get_char(i) != b.get_char(i) {
            return false;
        }
        i += 1;
    }
    proof {
        assert(a@ =~= b@);
    }
    true
}

/// Index of the first occurrence of `sep` in `s`, if any.
pub fn find_char(s: &str, sep: char) -> (r: Option<usize>)
    ensures
        match r {
            Some(i) => i < s@.len() && s@[i as int] == sep && forall|j: int|
                0 <= j < i ==> s@[j] != sep,
            None => forall|j: int| 0 <= j < s@.len() ==> s@[j] != sep,
        },
{
    let n = s.unicode_len();
    let mut i: usize = 0;
    while i < n
        invariant
            i <= n,
            n == s@.len(),
            forall|j: int| 0 <= j < i ==> s@[j] != sep,
        decreases n - i,
    {
        if s.get_char(i) == sep {
            return Some(i);
        }
        i += 1;
    }
    None
}

/// Splits `s` on every occurrence of `sep`, exactly as [`spec_split`]
/// describes.
pub fn split_char(s: &str, sep: char) -> (parts: Vec<String>)
    ensures
        parts@.map_values(|p: String| p@) == spec_split(s@, sep),
    decreases s@.len(),
{
    match find_char(s, sep) {
        Some(i) => {
            let n = s.unicode_len();
            let head = s.substring_char(0, i);
            let tail = s.substring_char(i + 1, n);
            let mut rest = split_char(tail, sep);
            rest.insert(0, head.to_owned());
            proof {
                lemma_split_at_sep(s@, sep, i as int);
                assert(rest@.map_values(|p: String| p@) =~~= spec_split(s@, sep));
            }
            rest
        },
        None => {
            let mut parts: Vec<String> = Vec::new();
            parts.push(s.to_owned());
            proof {
                lemma_split_no_sep(s@, sep);
                assert(parts@.map_values(|p: String| p@) =~~= spec_split(s@, sep));
            }
            parts
        },
    }
}

} // verus!
