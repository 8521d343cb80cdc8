//! A small JSON reader: whitespace, strings, numbers, and a skipper for
//! whole values, each an executable function proved against a spec-level
//! grammar over character sequences.
//!
//! Strings accept the two-character escapes and `\uXXXX` code points; a
//! surrogate pair of `\uXXXX` escapes is combined into one character, and
//! a lone surrogate is malformed.

use vstd::prelude::*;
use vstd::string::*;
use vstd::utf8::{char_u32_cast, is_scalar};

use crate::decimal::is_digit_char;

verus! {

/// Relies on char::from_u32: `Some` exactly for the Unicode scalar values,
/// returning the character with that code point.
pub assume_specification[ char::from_u32 ](i: u32) -> (r: Option<char>)
    ensures
        match r {
            Some(c) => c as u32 == i && is_scalar(i),
            None => !is_scalar(i),
        },
;

/// Relies on String::push: appends one character at the end.
pub assume_specification[ String::push ](s: &mut String, ch: char)
    ensures
        final(s)@ == old(s)@.push(ch),
;

/// JSON insignificant whitespace.
pub open spec fn is_ws(c: char) -> bool {
    c == ' ' || c == '\t' || c == '\n' || c == '\r'
}

/// The first position at or after `i` holding a non-whitespace character.
pub open spec fn spec_skip_ws(s: Seq<char>, i: int) -> int
    decreases s.len() - i,
{
    if 0 <= i < s.len() && is_ws(s[i]) {
        spec_skip_ws(s, i + 1)
    } else {
        i
    }
}

pub fn skip_ws(s: &str, i: usize) -> (r: usize)
    requires
        i <= s@.len(),
    ensures
        r == spec_skip_ws(s@, i as int),
        i <= r <= s@.len(),
{
    let n = s.unicode_len();
    let mut j = i;
    while j < n
        invariant
            i <= j <= n,
            n == s@.len(),
            spec_skip_ws(s@, i as int) == spec_skip_ws(s@, j as int),
        decreases n - j,
    {
        let c = s.get_char(j);
        if !(c == ' ' || c == '\t' || c == '\n' || c == '\r') {
            return j;
        }
        j = j + 1;
    }
    j
}

/// What a string escape character stands for; `None` for one the reader
/// does not accept.
pub open spec fn spec_escape_char(e: char) -> Option<char> {
    if e == '"' {
        Some('"')
    } else if e == '\\' {
        Some('\\')
    } else if e == '/' {
        Some('/')
    } else if e == 'b' {
        Some('\u{8}')
    } else if e == 'f' {
        Some('\u{c}')
    } else if e == 'n' {
        Some('\n')
    } else if e == 'r' {
        Some('\r')
    } else if e == 't' {
        Some('\t')
    } else {
        None
    }
}

/// What a hexadecimal digit denotes, either case; `-1` for any other
/// character.
pub open spec fn spec_hex_val(c: char) -> int {
    if 48 <= c as u32 && c as u32 <= 57 {
        c as u32 - 48
    } else if 97 <= c as u32 && c as u32 <= 102 {
        c as u32 - 87
    } else if 65 <= c as u32 && c as u32 <= 70 {
        c as u32 - 55
    } else {
        -1
    }
}

/// The value of four hexadecimal digits at `i`; `-1` when they are not
/// there.
pub open spec fn spec_hex4(s: Seq<char>, i: int) -> int {
    if 0 <= i && i + 4 <= s.len() {
        let a = spec_hex_val(s[i]);
        let b = spec_hex_val(s[i + 1]);
        let c = spec_hex_val(s[i + 2]);
        let d = spec_hex_val(s[i + 3]);
        if a >= 0 && b >= 0 && c >= 0 && d >= 0 {
            a * 4096 + b * 256 + c * 16 + d
        } else {
            -1
        }
    } else {
        -1
    }
}

/// Reads a `\uXXXX` escape whose backslash stands at `i`: the character it
/// denotes and the position after it. A high surrogate must be followed by
/// a low-surrogate escape, and the pair is combined; a lone surrogate is
/// malformed.
pub open spec fn spec_unicode_escape(s: Seq<char>, i: int) -> Option<(char, int)> {
    let code = spec_hex4(s, i + 2);
    if code < 0 {
        None
    } else if 0xD800 <= code && code <= 0xDBFF {
        if i + 12 <= s.len() && s[i + 6] == '\\' && s[i + 7] == 'u' {
            let low = spec_hex4(s, i + 8);
            if 0xDC00 <= low && low <= 0xDFFF {
                Some(
                    (((0x10000 + (code - 0xD800) * 0x400 + (low - 0xDC00)) as u32) as char, i + 12),
                )
            } else {
                None
            }
        } else {
            None
        }
    } else if 0xDC00 <= code && code <= 0xDFFF {
        None
    } else {
        Some(((code as u32) as char, i + 6))
    }
}

/// Reads a string body starting at `i`, just after the opening quote:
/// the decoded contents and the position after the closing quote.
pub open spec fn spec_string_body(s: Seq<char>, i: int) -> Option<(Seq<char>, int)>
    decreases s.len() - i,
{
    if !(0 <= i < s.len()) {
        None
    } else {
        let c = s[i];
        if c == '"' {
            Some((Seq::empty(), i + 1))
        } else if c == '\\' {
            if i + 2 > s.len() {
                None
            } else if s[i + 1] == 'u' {
                match spec_unicode_escape(s, i) {
                    Some((ch, next)) => {
                        if !(i < next && next <= s.len()) {
                            None
                        } else {
                            match spec_string_body(s, next) {
                                Some((rest, n)) => Some((seq![ch] + rest, n)),
                                None => None,
                            }
                        }
                    },
                    None => None,
                }
            } else {
                match spec_escape_char(s[i + 1]) {
                    Some(ch) => match spec_string_body(s, i + 2) {
                        Some((rest, n)) => Some((seq![ch] + rest, n)),
                        None => None,
                    },
                    None => None,
                }
            }
        } else if (c as u32) < 32 {
            None
        } else {
            match spec_string_body(s, i + 1) {
                Some((rest, n)) => Some((seq![c] + rest, n)),
                None => None,
            }
        }
    }
}

/// A decoded string body with a prefix already accumulated in front of it.
pub open spec fn spec_body_with_prefix(prefix: Seq<char>, rest: Option<(Seq<char>, int)>) -> Option<
    (Seq<char>, int),
> {
    match rest {
        Some((r, n)) => Some((prefix + r, n)),
        None => None,
    }
}

fn escape_piece(e: char) -> (r: Option<&'static str>)
    ensures
        match spec_escape_char(e) {
            Some(ch) => r is Some && r.unwrap()@ == seq![ch],
            None => r is None,
        },
{
    proof {
        reveal_strlit("\"");
        reveal_strlit("\\");
        reveal_strlit("/");
        reveal_strlit("\u{8}");
        reveal_strlit("\u{c}");
        reveal_strlit("\n");
        reveal_strlit("\r");
        reveal_strlit("\t");
    }
    if e == '"' {
        Some("\"")
    } else if e == '\\' {
        Some("\\")
    } else if e == '/' {
        Some("/")
    } else if e == 'b' {
        Some("\u{8}")
    } else if e == 'f' {
        Some("\u{c}")
    } else if e == 'n' {
        Some("\n")
    } else if e == 'r' {
        Some("\r")
    } else if e == 't' {
        Some("\t")
    } else {
        None
    }
}

fn hex_val(c: char) -> (r: i32)
    ensures
        r as int == spec_hex_val(c),
        -1 <= r < 16,
{
    let u = c as u32;
    if 48 <= u && u <= 57 {
        (u - 48) as i32
    } else if 97 <= u && u <= 102 {
        (u - 87) as i32
    } else if 65 <= u && u <= 70 {
        (u - 55) as i32
    } else {
        -1
    }
}

fn hex4(s: &str, i: usize) -> (r: Option<u32>)
    requires
        i <= s@.len(),
    ensures
        match r {
            Some(v) => spec_hex4(s@, i as int) == v as int && v < 65536,
            None => spec_hex4(s@, i as int) < 0,
        },
{
    let n = s.unicode_len();
    if n - i < 4 {
        return None;
    }
    let a = hex_val(s.get_char(i));
    let b = hex_val(s.get_char(i + 1));
    let c = hex_val(s.get_char(i + 2));
    let d = hex_val(s.get_char(i + 3));
    if a < 0 || b < 0 || c < 0 || d < 0 {
        return None;
    }
    Some((a as u32) * 4096 + (b as u32) * 256 + (c as u32) * 16 + (d as u32))
}

/// Reads a `\uXXXX` escape whose backslash stands at `j`.
fn read_unicode_escape(s: &str, j: usize) -> (r: Option<(char, usize)>)
    requires
        j <= s@.len(),
    ensures
        match r {
            Some((ch, next)) => spec_unicode_escape(s@, j as int) == Some((ch, next as int)) && j
                < next <= s@.len(),
            None => spec_unicode_escape(s@, j as int) is None,
        },
{
    let n = s.unicode_len();
    if n - j < 6 {
        return None;
    }
    let code = match hex4(s, j + 2) {
        Some(v) => v,
        None => {
            return None;
        },
    };
    if 0xD800 <= code && code <= 0xDBFF {
        if n - j >= 12 && s.get_char(j + 6) == '\\' && s.get_char(j + 7) == 'u' {
            match hex4(s, j + 8) {
                Some(low) => {
                    if 0xDC00 <= low && low <= 0xDFFF {
                        let scalar = 0x10000u32 + (code - 0xD800) * 0x400 + (low - 0xDC00);
                        match char::from_u32(scalar) {
                            Some(ch) => {
                                proof {
                                    char_u32_cast(ch, scalar);
                                }
                                Some((ch, j + 12))
                            },
                            None => {
                                // A scalar in the supplementary planes is
                                // always valid, so this arm cannot be
                                // reached.
                                assert(is_scalar(scalar));
                                None
                            },
                        }
                    } else {
                        None
                    }
                },
                None => None,
            }
        } else {
            None
        }
    } else if 0xDC00 <= code && code <= 0xDFFF {
        None
    } else {
        match char::from_u32(code) {
            Some(ch) => {
                proof {
                    char_u32_cast(ch, code);
                }
                Some((ch, j + 6))
            },
            None => {
                // A code point below the surrogates, or between them and
                // the end of the basic plane, is always a scalar.
                assert(is_scalar(code));
                None
            },
        }
    }
}

/// Reads a string body starting just after the opening quote.
pub fn parse_string_body(s: &str, i: usize) -> (r: Option<(String, usize)>)
    requires
        i <= s@.len(),
    ensures
        match r {
            Some((v, n)) => spec_string_body(s@, i as int) == Some((v@, n as int)) && i < n
                <= s@.len(),
            None => spec_string_body(s@, i as int) is None,
        },
{
    let n = s.unicode_len();
    let mut acc = String::new();
    let mut j = i;
    while j < n
        invariant
            i <= j <= n,
            n == s@.len(),
            spec_string_body(s@, i as int) == spec_body_with_prefix(
                acc@,
                spec_string_body(s@, j as int),
            ),
        decreases n - j,
    {
        let c = s.get_char(j);
        if c == '"' {
            proof {
                assert(acc@ + Seq::<char>::empty() =~= acc@);
            }
            return Some((acc, j + 1));
        } else if c == '\\' {
            if j + 1 >= n {
                return None;
            }
            let e = s.get_char(j + 1);
            if e == 'u' {
                match read_unicode_escape(s, j) {
                    Some((ch, next)) => {
                        let ghost acc_before = acc@;
                        acc.push(ch);
                        proof {
                            assert(acc@ =~= acc_before + seq![ch]);
                            if spec_string_body(s@, next as int) is Some {
                                let (rest, _) = spec_string_body(s@, next as int).unwrap();
                                assert(acc_before + (seq![ch] + rest) =~= acc@ + rest);
                            }
                        }
                        j = next;
                    },
                    None => {
                        return None;
                    },
                }
            } else {
                match escape_piece(e) {
                    Some(piece) => {
                        let ghost acc_before = acc@;
                        let ghost ch = spec_escape_char(e).unwrap();
                        acc.append(piece);
                        proof {
                            assert(acc@ =~= acc_before + seq![ch]);
                            if spec_string_body(s@, j as int + 2) is Some {
                                let (rest, _) = spec_string_body(s@, j as int + 2).unwrap();
                                assert(acc_before + (seq![ch] + rest) =~= acc@ + rest);
                            }
                        }
                        j = j + 2;
                    },
                    None => {
                        return None;
                    },
                }
            }
        } else if (c as u32) < 32 {
            return None;
        } else {
            let ghost acc_before = acc@;
            acc.append(s.substring_char(j, j + 1));
            proof {
                assert(s@.subrange(j as int, j as int + 1) =~= seq![s@[j as int]]);
                assert(acc@ =~= acc_before + seq![c]);
                if spec_string_body(s@, j as int + 1) is Some {
                    let (rest, _) = spec_string_body(s@, j as int + 1).unwrap();
                    assert(acc_before + (seq![c] + rest) =~= acc@ + rest);
                }
            }
            j = j + 1;
        }
    }
    None
}

/// The first position at or after `i` holding a non-digit character.
pub open spec fn spec_scan_digits(s: Seq<char>, i: int) -> int
    decreases s.len() - i,
{
    if 0 <= i < s.len() && is_digit_char(s[i]) {
        spec_scan_digits(s, i + 1)
    } else {
        i
    }
}

pub fn scan_digits(s: &str, i: usize) -> (r: usize)
    requires
        i <= s@.len(),
    ensures
        r == spec_scan_digits(s@, i as int),
        i <= r <= s@.len(),
{
    let n = s.unicode_len();
    let mut j = i;
    while j < n
        invariant
            i <= j <= n,
            n == s@.len(),
            spec_scan_digits(s@, i as int) == spec_scan_digits(s@, j as int),
        decreases n - j,
    {
        let c = s.get_char(j) as u32;
        if c < 48 || c > 57 {
            return j;
        }
        j = j + 1;
    }
    j
}

/// Reads a JSON number token starting at `i`: the token's characters,
/// verbatim, and the position after it.
pub open spec fn spec_number_token(s: Seq<char>, i: int) -> Option<(Seq<char>, int)> {
    if !(0 <= i < s.len()) {
        None
    } else {
        let j = if s[i] == '-' {
            i + 1
        } else {
            i
        };
        if !(j < s.len() && is_digit_char(s[j])) {
            None
        } else {
            let k = if s[j] == '0' {
                j + 1
            } else {
                spec_scan_digits(s, j)
            };
            let k2 = if k < s.len() && s[k] == '.' {
                if k + 1 < s.len() && is_digit_char(s[k + 1]) {
                    spec_scan_digits(s, k + 1)
                } else {
                    -1
                }
            } else {
                k
            };
            if k2 < 0 {
                None
            } else {
                let k3 = if k2 < s.len() && (s[k2] == 'e' || s[k2] == 'E') {
                    let e0 = if k2 + 1 < s.len() && (s[k2 + 1] == '+' || s[k2 + 1] == '-') {
                        k2 + 2
                    } else {
                        k2 + 1
                    };
                    if e0 < s.len() && is_digit_char(s[e0]) {
                        spec_scan_digits(s, e0)
                    } else {
                        -1
                    }
                } else {
                    k2
                };
                if k3 < 0 {
                    None
                } else {
                    Some((s.subrange(i, k3), k3))
                }
            }
        }
    }
}

proof fn lemma_scan_digits_ge(s: Seq<char>, x: int)
    requires
        0 <= x <= s.len(),
    ensures
        spec_scan_digits(s, x) >= x,
    decreases s.len() - x,
{
    if x < s.len() && is_digit_char(s[x]) {
        lemma_scan_digits_ge(s, x + 1);
    }
}

fn is_digit_at(s: &str, i: usize) -> (r: bool)
    requires
        i <= s@.len(),
    ensures
        r == (i < s@.len() && is_digit_char(s@[i as int])),
{
    if i >= s.unicode_len() {
        return false;
    }
    let c = s.get_char(i) as u32;
    48 <= c && c <= 57
}

/// Reads a JSON number token starting at `i`.
pub fn parse_number_token(s: &str, i: usize) -> (r: Option<(String, usize)>)
    requires
        i <= s@.len(),
    ensures
        match r {
            Some((v, n)) => spec_number_token(s@, i as int) == Some((v@, n as int)) && i < n
                <= s@.len(),
            None => spec_number_token(s@, i as int) is None,
        },
{
    let len = s.unicode_len();
    if i >= len {
        return None;
    }
    let j = if s.get_char(i) == '-' {
        i + 1
    } else {
        i
    };
    if !is_digit_at(s, j) {
        return None;
    }
    let k = if s.get_char(j) == '0' {
        j + 1
    } else {
        scan_digits(s, j)
    };
    let k2_ok: bool;
    let mut k2 = k;
    if k < len && s.get_char(k) == '.' {
        if is_digit_at(s, k + 1) {
            k2 = scan_digits(s, k + 1);
            k2_ok = true;
        } else {
            k2_ok = false;
        }
    } else {
        k2_ok = true;
    }
    if !k2_ok {
        return None;
    }
    let k3_ok: bool;
    let mut k3 = k2;
    if k2 < len && (s.get_char(k2) == 'e' || s.get_char(k2) == 'E') {
        let e0 = if k2 + 1 < len && (s.get_char(k2 + 1) == '+' || s.get_char(k2 + 1) == '-') {
            k2 + 2
        } else {
            k2 + 1
        };
        if is_digit_at(s, e0) {
            k3 = scan_digits(s, e0);
            k3_ok = true;
        } else {
            k3_ok = false;
        }
    } else {
        k3_ok = true;
    }
    if !k3_ok {
        return None;
    }
    proof {
        lemma_scan_digits_ge(s@, j as int + 1);
        if j < len && s@[j as int] != '0' {
            assert(spec_scan_digits(s@, j as int) == spec_scan_digits(s@, j as int + 1));
        }
    }
    Some((String::from_str(s.substring_char(i, k3)), k3))
}

/// Whether the literal `lit` stands verbatim at position `i`, and where it
/// ends.
pub open spec fn spec_match_lit(s: Seq<char>, i: int, lit: Seq<char>) -> Option<int> {
    if 0 <= i && i + lit.len() <= s.len() && s.subrange(i, i + lit.len()) == lit {
        Some(i + lit.len())
    } else {
        None
    }
}

fn match_keyword(s: &str, i: usize, lit: &str) -> (r: Option<usize>)
    requires
        i <= s@.len(),
    ensures
        match r {
            Some(n) => spec_match_lit(s@, i as int, lit@) == Some(n as int) && i <= n <= s@.len()
                && n == i + lit@.len(),
            None => spec_match_lit(s@, i as int, lit@) is None,
        },
{
    let n = s.unicode_len();
    let m = lit.unicode_len();
    if m > n - i {
        return None;
    }
    let mut j: usize = 0;
    while j < m
        invariant
            0 <= j <= m,
            m == lit@.len(),
            n == s@.len(),
            i + m <= n,
            forall|k: int| 0 <= k < j ==> s@[i + k] == lit@[k],
        decreases m - j,
    {
        if s.get_char(i + j) != lit.get_char(j) {
            assert(s@[i + j as int] != lit@[j as int]);
            assert(spec_match_lit(s@, i as int, lit@) is None) by {
                if s@.subrange(i as int, i + lit@.len()) == lit@ {
                    assert(s@.subrange(i as int, i + lit@.len())[j as int] == s@[i + j as int]);
                }
            }
            return None;
        }
        j = j + 1;
    }
    assert(s@.subrange(i as int, i + lit@.len()) =~= lit@);
    Some(i + m)
}

/// Moves past one whole JSON value starting at `i`: `None` when no
/// well-formed value stands there.
pub open spec fn spec_skip_value(s: Seq<char>, i: int) -> Option<int>
    decreases s.len() - i, 0int,
{
    if !(0 <= i < s.len()) {
        None
    } else {
        let c = s[i];
        if c == '"' {
            match spec_string_body(s, i + 1) {
                Some((_v, n)) => Some(n),
                None => None,
            }
        } else if c == '{' {
            let j = spec_skip_ws(s, i + 1);
            if !(i < j && j < s.len()) {
                None
            } else if s[j] == '}' {
                Some(j + 1)
            } else {
                spec_member_chain(s, j)
            }
        } else if c == '[' {
            let j = spec_skip_ws(s, i + 1);
            if !(i < j && j < s.len()) {
                None
            } else if s[j] == ']' {
                Some(j + 1)
            } else {
                spec_element_chain(s, j)
            }
        } else if c == 't' {
            spec_match_lit(s, i, "true"@)
        } else if c == 'f' {
            spec_match_lit(s, i, "false"@)
        } else if c == 'n' {
            spec_match_lit(s, i, "null"@)
        } else {
            match spec_number_token(s, i) {
                Some((_v, n)) => Some(n),
                None => None,
            }
        }
    }
}

/// Moves past the members of an object from the first key at `j` to the
/// closing brace.
pub open spec fn spec_member_chain(s: Seq<char>, j: int) -> Option<int>
    decreases s.len() - j, 1int,
{
    if !(0 <= j < s.len() && s[j] == '"') {
        None
    } else {
        match spec_string_body(s, j + 1) {
            Some((_key, k)) => {
                if !(j < k && k <= s.len()) {
                    None
                } else {
                    let m = spec_skip_ws(s, k);
                    if !(k <= m && m < s.len() && s[m] == ':') {
                        None
                    } else {
                        let v = spec_skip_ws(s, m + 1);
                        if !(j < v && v <= s.len()) {
                            None
                        } else {
                            match spec_skip_value(s, v) {
                                Some(n) => {
                                    if !(v < n && n <= s.len()) {
                                        None
                                    } else {
                                        let e = spec_skip_ws(s, n);
                                        if !(e < s.len()) {
                                            None
                                        } else if s[e] == ',' {
                                            let j2 = spec_skip_ws(s, e + 1);
                                            if !(j < j2 && j2 <= s.len()) {
                                                None
                                            } else {
                                                spec_member_chain(s, j2)
                                            }
                                        } else if s[e] == '}' {
                                            Some(e + 1)
                                        } else {
                                            None
                                        }
                                    }
                                },
                                None => None,
                            }
                        }
                    }
                }
            },
            None => None,
        }
    }
}

/// Moves past the elements of an array from the first element at `j` to the
/// closing bracket.
pub open spec fn spec_element_chain(s: Seq<char>, j: int) -> Option<int>
    decreases s.len() - j, 1int,
{
    if !(0 <= j < s.len()) {
        None
    } else {
        match spec_skip_value(s, j) {
            Some(n) => {
                if !(j < n && n <= s.len()) {
                    None
                } else {
                    let e = spec_skip_ws(s, n);
                    if !(e < s.len()) {
                        None
                    } else if s[e] == ',' {
                        let j2 = spec_skip_ws(s, e + 1);
                        if !(j < j2 && j2 <= s.len()) {
                            None
                        } else {
                            spec_element_chain(s, j2)
                        }
                    } else if s[e] == ']' {
                        Some(e + 1)
                    } else {
                        None
                    }
                }
            },
            None => None,
        }
    }
}

/// Reads one member's key and the position of its value: the key at `j`,
/// then `:`, with whitespace allowed around it.
pub open spec fn spec_member_key(s: Seq<char>, j: int) -> Option<(Seq<char>, int)> {
    if !(0 <= j < s.len() && s[j] == '"') {
        None
    } else {
        match spec_string_body(s, j + 1) {
            Some((key, k)) => {
                if !(j < k && k <= s.len()) {
                    None
                } else {
                    let m = spec_skip_ws(s, k);
                    if !(m < s.len() && s[m] == ':') {
                        None
                    } else {
                        let v = spec_skip_ws(s, m + 1);
                        if !(j < v && v <= s.len()) {
                            None
                        } else {
                            Some((key, v))
                        }
                    }
                }
            },
            None => None,
        }
    }
}

/// Reads one member's key and the position of its value.
pub fn member_key(s: &str, j: usize) -> (r: Option<(String, usize)>)
    requires
        j <= s@.len(),
    ensures
        match r {
            Some((key, v)) => spec_member_key(s@, j as int) == Some((key@, v as int)) && j < v
                <= s@.len(),
            None => spec_member_key(s@, j as int) is None,
        },
{
    let len = s.unicode_len();
    if j >= len || s.get_char(j) != '"' {
        return None;
    }
    match parse_string_body(s, j + 1) {
        Some((key, k)) => {
            let m = skip_ws(s, k);
            if m >= len || s.get_char(m) != ':' {
                return None;
            }
            let v = skip_ws(s, m + 1);
            Some((key, v))
        },
        None => None,
    }
}

/// After a member's value ends at `n`: a comma leads to the next key, a
/// closing brace ends the object. `true` means the object closed.
pub open spec fn spec_member_next(s: Seq<char>, j: int, n: int) -> Option<(bool, int)> {
    if !(0 <= n <= s.len()) {
        None
    } else {
        let e = spec_skip_ws(s, n);
        if !(e < s.len()) {
            None
        } else if s[e] == ',' {
            let j2 = spec_skip_ws(s, e + 1);
            if !(j < j2 && j2 <= s.len()) {
                None
            } else {
                Some((false, j2))
            }
        } else if s[e] == '}' {
            Some((true, e + 1))
        } else {
            None
        }
    }
}

/// After a member's value ends at `n`, finds the next key or the close.
pub fn member_next(s: &str, j: usize, n: usize) -> (r: Option<(bool, usize)>)
    requires
        j < n <= s@.len(),
    ensures
        match r {
            Some((done, p)) => spec_member_next(s@, j as int, n as int) == Some((done, p as int))
                && j < p <= s@.len() && (done ==> n < p),
            None => spec_member_next(s@, j as int, n as int) is None,
        },
{
    let len = s.unicode_len();
    let e = skip_ws(s, n);
    if e >= len {
        None
    } else if s.get_char(e) == ',' {
        let j2 = skip_ws(s, e + 1);
        Some((false, j2))
    } else if s.get_char(e) == '}' {
        Some((true, e + 1))
    } else {
        None
    }
}

/// After an array element ends at `n`: a comma leads to the next element, a
/// closing bracket ends the array. `true` means the array closed.
pub open spec fn spec_element_next(s: Seq<char>, j: int, n: int) -> Option<(bool, int)> {
    if !(0 <= n <= s.len()) {
        None
    } else {
        let e = spec_skip_ws(s, n);
        if !(e < s.len()) {
            None
        } else if s[e] == ',' {
            let j2 = spec_skip_ws(s, e + 1);
            if !(j < j2 && j2 <= s.len()) {
                None
            } else {
                Some((false, j2))
            }
        } else if s[e] == ']' {
            Some((true, e + 1))
        } else {
            None
        }
    }
}

/// After an array element ends at `n`, finds the next element or the close.
pub fn element_next(s: &str, j: usize, n: usize) -> (r: Option<(bool, usize)>)
    requires
        j < n <= s@.len(),
    ensures
        match r {
            Some((done, p)) => spec_element_next(s@, j as int, n as int) == Some((done, p as int))
                && j < p <= s@.len() && (done ==> n < p),
            None => spec_element_next(s@, j as int, n as int) is None,
        },
{
    let len = s.unicode_len();
    let e = skip_ws(s, n);
    if e >= len {
        None
    } else if s.get_char(e) == ',' {
        let j2 = skip_ws(s, e + 1);
        Some((false, j2))
    } else if s.get_char(e) == ']' {
        Some((true, e + 1))
    } else {
        None
    }
}

/// Reads a member value that must be a string.
pub open spec fn spec_string_value(s: Seq<char>, v: int) -> Option<(Seq<char>, int)> {
    if 0 <= v < s.len() && s[v] == '"' {
        spec_string_body(s, v + 1)
    } else {
        None
    }
}

/// Reads a member value that must be a string.
pub fn string_value(s: &str, v: usize) -> (r: Option<(String, usize)>)
    requires
        v <= s@.len(),
    ensures
        match r {
            Some((x, n)) => spec_string_value(s@, v as int) == Some((x@, n as int)) && v < n
                <= s@.len(),
            None => spec_string_value(s@, v as int) is None,
        },
{
    if v >= s.unicode_len() || s.get_char(v) != '"' {
        return None;
    }
    parse_string_body(s, v + 1)
}

/// Reads a member value that must be `true` or `false`.
pub open spec fn spec_bool_value(s: Seq<char>, v: int) -> Option<(bool, int)> {
    match spec_match_lit(s, v, "true"@) {
        Some(n) => Some((true, n)),
        None => match spec_match_lit(s, v, "false"@) {
            Some(n) => Some((false, n)),
            None => None,
        },
    }
}

/// Reads a member value that must be `true` or `false`.
pub fn bool_value(s: &str, v: usize) -> (r: Option<(bool, usize)>)
    requires
        v <= s@.len(),
    ensures
        match r {
            Some((b, n)) => spec_bool_value(s@, v as int) == Some((b, n as int)) && v < n
                <= s@.len(),
            None => spec_bool_value(s@, v as int) is None,
        },
{
    proof {
        reveal_strlit("true");
        reveal_strlit("false");
    }
    match match_keyword(s, v, "true") {
        Some(n) => Some((true, n)),
        None => match match_keyword(s, v, "false") {
            Some(n) => Some((false, n)),
            None => None,
        },
    }
}

/// Moves past one whole JSON value starting at `i`.
pub fn skip_value(s: &str, i: usize) -> (r: Option<usize>)
    requires
        i <= s@.len(),
    ensures
        match r {
            Some(n) => spec_skip_value(s@, i as int) == Some(n as int) && i < n <= s@.len(),
            None => spec_skip_value(s@, i as int) is None,
        },
    decreases s@.len() - i, 0int,
{
    let len = s.unicode_len();
    if i >= len {
        return None;
    }
    proof {
        reveal_strlit("true");
        reveal_strlit("false");
        reveal_strlit("null");
    }
    let c = s.get_char(i);
    if c == '"' {
        match parse_string_body(s, i + 1) {
            Some((_v, n)) => Some(n),
            None => None,
        }
    } else if c == '{' {
        let j = skip_ws(s, i + 1);
        if j >= len {
            None
        } else if s.get_char(j) == '}' {
            Some(j + 1)
        } else {
            member_chain(s, j)
        }
    } else if c == '[' {
        let j = skip_ws(s, i + 1);
        if j >= len {
            None
        } else if s.get_char(j) == ']' {
            Some(j + 1)
        } else {
            element_chain(s, j)
        }
    } else if c == 't' {
        match_keyword(s, i, "true")
    } else if c == 'f' {
        match_keyword(s, i, "false")
    } else if c == 'n' {
        match_keyword(s, i, "null")
    } else {
        match parse_number_token(s, i) {
            Some((_v, n)) => Some(n),
            None => None,
        }
    }
}

/// Moves past an object's members from the first key at `j`.
pub fn member_chain(s: &str, j: usize) -> (r: Option<usize>)
    requires
        j <= s@.len(),
    ensures
        match r {
            Some(n) => spec_member_chain(s@, j as int) == Some(n as int) && j < n <= s@.len(),
            None => spec_member_chain(s@, j as int) is None,
        },
    decreases s@.len() - j, 1int,
{
    let len = s.unicode_len();
    if j >= len || s.get_char(j) != '"' {
        return None;
    }
    match parse_string_body(s, j + 1) {
        Some((_key, k)) => {
            let m = skip_ws(s, k);
            if m >= len || s.get_char(m) != ':' {
                return None;
            }
            let v = skip_ws(s, m + 1);
            match skip_value(s, v) {
                Some(n) => {
                    let e = skip_ws(s, n);
                    if e >= len {
                        None
                    } else if s.get_char(e) == ',' {
                        let j2 = skip_ws(s, e + 1);
                        member_chain(s, j2)
                    } else if s.get_char(e) == '}' {
                        Some(e + 1)
                    } else {
                        None
                    }
                },
                None => None,
            }
        },
        None => None,
    }
}

/// The character for a single hexadecimal digit value, lower case.
pub open spec fn hex_char(d: int) -> char {
    if d < 10 {
        crate::decimal::digit_char(d)
    } else if d == 10 {
        'a'
    } else if d == 11 {
        'b'
    } else if d == 12 {
        'c'
    } else if d == 13 {
        'd'
    } else if d == 14 {
        'e'
    } else {
        'f'
    }
}

fn hex_str(d: u8) -> (r: &'static str)
    requires
        d < 16,
    ensures
        r@ == seq![hex_char(d as int)],
{
    proof {
        reveal_strlit("a");
        reveal_strlit("b");
        reveal_strlit("c");
        reveal_strlit("d");
        reveal_strlit("e");
        reveal_strlit("f");
    }
    if d < 10 {
        crate::decimal::digit_str(d as u64)
    } else {
        match d {
            10 => "a",
            11 => "b",
            12 => "c",
            13 => "d",
            14 => "e",
            _ => "f",
        }
    }
}

/// How one character stands inside a JSON string: itself, a two-character
/// escape, or a `\u00XX` escape for the remaining control characters.
pub open spec fn spec_escaped_char(c: char) -> Seq<char> {
    if c == '"' {
        seq!['\\', '"']
    } else if c == '\\' {
        seq!['\\', '\\']
    } else if c == '\u{8}' {
        seq!['\\', 'b']
    } else if c == '\u{c}' {
        seq!['\\', 'f']
    } else if c == '\n' {
        seq!['\\', 'n']
    } else if c == '\r' {
        seq!['\\', 'r']
    } else if c == '\t' {
        seq!['\\', 't']
    } else if (c as u32) < 32 {
        seq!['\\', 'u', '0', '0', hex_char(c as u32 as int / 16), hex_char(c as u32 as int % 16)]
    } else {
        seq![c]
    }
}

/// The body of the JSON string that denotes `s`.
pub open spec fn spec_json_escape(s: Seq<char>) -> Seq<char>
    decreases s.len(),
{
    if s.len() == 0 {
        Seq::empty()
    } else {
        spec_escaped_char(s[0]) + spec_json_escape(s.drop_first())
    }
}

/// The JSON string that denotes `s`, quotes included.
pub open spec fn spec_json_string(s: Seq<char>) -> Seq<char> {
    seq!['"'] + spec_json_escape(s) + seq!['"']
}

proof fn lemma_escape_push(s: Seq<char>, c: char)
    ensures
        spec_json_escape(s.push(c)) == spec_json_escape(s) + spec_escaped_char(c),
    decreases s.len(),
{
    if s.len() == 0 {
        assert(s.push(c)[0] == c);
        assert(s.push(c).drop_first() =~= Seq::<char>::empty());
        assert(spec_json_escape(Seq::<char>::empty()) =~= Seq::<char>::empty());
        assert(spec_json_escape(s.push(c)) =~= spec_escaped_char(c) + Seq::<char>::empty());
        assert(spec_escaped_char(c) + Seq::<char>::empty() =~= spec_json_escape(s)
            + spec_escaped_char(c));
    } else {
        lemma_escape_push(s.drop_first(), c);
        assert(s.push(c)[0] == s[0]);
        assert(s.push(c).drop_first() =~= s.drop_first().push(c));
        assert(spec_escaped_char(s[0]) + (spec_json_escape(s.drop_first()) + spec_escaped_char(c))
            =~= (spec_escaped_char(s[0]) + spec_json_escape(s.drop_first())) + spec_escaped_char(
            c,
        ));
    }
}

/// Renders `s` as it stands inside a JSON string.
pub fn json_escape(s: &str) -> (r: String)
    ensures
        r@ == spec_json_escape(s@),
{
    let n = s.unicode_len();
    let mut out = String::new();
    let mut i: usize = 0;
    while i < n
        invariant
            0 <= i <= n,
            n == s@.len(),
            out@ == spec_json_escape(s@.subrange(0, i as int)),
        decreases n - i,
    {
        proof {
            reveal_strlit("\\\"");
            reveal_strlit("\\\\");
            reveal_strlit("\\b");
            reveal_strlit("\\f");
            reveal_strlit("\\n");
            reveal_strlit("\\r");
            reveal_strlit("\\t");
            reveal_strlit("\\u00");
        }
        let c = s.get_char(i);
        let ghost pre = out@;
        if c == '"' {
            out.append("\\\"");
            assert(out@ =~= pre + spec_escaped_char(c));
        } else if c == '\\' {
            out.append("\\\\");
            assert(out@ =~= pre + spec_escaped_char(c));
        } else if c == '\u{8}' {
            out.append("\\b");
            assert(out@ =~= pre + spec_escaped_char(c));
        } else if c == '\u{c}' {
            out.append("\\f");
            assert(out@ =~= pre + spec_escaped_char(c));
        } else if c == '\n' {
            out.append("\\n");
            assert(out@ =~= pre + spec_escaped_char(c));
        } else if c == '\r' {
            out.append("\\r");
            assert(out@ =~= pre + spec_escaped_char(c));
        } else if c == '\t' {
            out.append("\\t");
            assert(out@ =~= pre + spec_escaped_char(c));
        } else if (c as u32) < 32 {
            let cu = c as u32;
            out.append("\\u00");
            out.append(hex_str((cu / 16) as u8));
            out.append(hex_str((cu % 16) as u8));
            assert(out@ =~= pre + spec_escaped_char(c));
        } else {
            out.append(s.substring_char(i, i + 1));
            proof {
                assert(s@.subrange(i as int, i as int + 1) =~= seq![s@[i as int]]);
                assert(out@ =~= pre + spec_escaped_char(c));
            }
        }
        proof {
            lemma_escape_push(s@.subrange(0, i as int), s@[i as int]);
            assert(s@.subrange(0, i as int + 1) =~= s@.subrange(0, i as int).push(s@[i as int]));
        }
        i = i + 1;
    }
    assert(s@.subrange(0, n as int) =~= s@);
    out
}

/// Renders the JSON string that denotes `s`, quotes included.
pub fn json_quote(s: &str) -> (r: String)
    ensures
        r@ == spec_json_string(s@),
{
    proof {
        reveal_strlit("\"");
    }
    let mut out = String::from_str("\"");
    out.append(json_escape(s).as_str());
    out.append("\"");
    proof {
        assert(out@ =~= spec_json_string(s@));
    }
    out
}

/// Moves past an array's elements from the first element at `j`.
pub fn element_chain(s: &str, j: usize) -> (r: Option<usize>)
    requires
        j <= s@.len(),
    ensures
        match r {
            Some(n) => spec_element_chain(s@, j as int) == Some(n as int) && j < n <= s@.len(),
            None => spec_element_chain(s@, j as int) is None,
        },
    decreases s@.len() - j, 1int,
{
    let len = s.unicode_len();
    if j >= len {
        return None;
    }
    match skip_value(s, j) {
        Some(n) => {
            let e = skip_ws(s, n);
            if e >= len {
                None
            } else if s.get_char(e) == ',' {
                let j2 = skip_ws(s, e + 1);
                element_chain(s, j2)
            } else if s.get_char(e) == ']' {
                Some(e + 1)
            } else {
                None
            }
        },
        None => None,
    }
}

} // verus!
