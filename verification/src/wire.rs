//
// The wire format of the window manager's workspace query: a JSON array
// of workspace objects. The decoder works on the raw bytes of the
// query's standard output and either yields the decoded records or, on
// any malformed payload, an empty list. Strings are decoded with the
// usual JSON escapes; numbers must be integers wherever a record field
// wants one; unknown object members are skipped but must still be well
// formed.
//
use vstd::prelude::*;
use crate::workspace::{Rect, Workspace, WorkspaceV};

verus! {

pub open spec fn is_ws_byte(b: u8) -> bool {
    b == 0x20 || b == 0x09 || b == 0x0a || b == 0x0d
}

pub open spec fn is_digit_byte(b: u8) -> bool {
    0x30 <= b <= 0x39
}

/// The first position at or after `i` that does not hold whitespace.
pub open spec fn spec_skip_ws(s: Seq<u8>, i: int) -> int
    decreases s.len() - i,
{
    if 0 <= i < s.len() && is_ws_byte(s[i]) {
        spec_skip_ws(s, i + 1)
    } else {
        i
    }
}

fn is_ws_exec(b: u8) -> (r: bool)
    ensures
        r == is_ws_byte(b),
{
    b == 0x20 || b == 0x09 || b == 0x0a || b == 0x0d
}

fn skip_ws(s: &Vec<u8>, i: usize) -> (r: usize)
    requires
        i <= s@.len(),
    ensures
        i <= r <= s@.len(),
        r as int == spec_skip_ws(s@, i as int),
{
    let mut j: usize = i;
    while j < s.len() && is_ws_exec(s[j])
        invariant
            i <= j <= s@.len(),
            spec_skip_ws(s@, i as int) == spec_skip_ws(s@, j as int),
        decreases s@.len() - j,
    {
        j = j + 1;
    }
    j
}

/// The first position at or after `i` that does not hold a decimal digit.
pub open spec fn spec_skip_digits(s: Seq<u8>, i: int) -> int
    decreases s.len() - i,
{
    if 0 <= i < s.len() && is_digit_byte(s[i]) {
        spec_skip_digits(s, i + 1)
    } else {
        i
    }
}

fn is_digit_exec(b: u8) -> (r: bool)
    ensures
        r == is_digit_byte(b),
{
    0x30 <= b && b <= 0x39
}

fn skip_digits(s: &Vec<u8>, i: usize) -> (r: usize)
    requires
        i <= s@.len(),
    ensures
        i <= r <= s@.len(),
        r as int == spec_skip_digits(s@, i as int),
{
    let mut j: usize = i;
    while j < s.len() && is_digit_exec(s[j])
        invariant
            i <= j <= s@.len(),
            spec_skip_digits(s@, i as int) == spec_skip_digits(s@, j as int),
        decreases s@.len() - j,
    {
        j = j + 1;
    }
    j
}

pub open spec fn as_int_opt(r: Option<usize>) -> Option<int> {
    match r {
        Some(j) => Some(j as int),
        None => None,
    }
}

/// The end of the fraction part of a JSON number starting at `i`, if the
/// part is well formed (absent counts as well formed).
pub open spec fn spec_skip_frac(s: Seq<u8>, i: int) -> Option<int> {
    if 0 <= i < s.len() && s[i] == 0x2e {
        if i + 1 < s.len() && is_digit_byte(s[i + 1]) {
            Some(spec_skip_digits(s, i + 1))
        } else {
            None
        }
    } else {
        Some(i)
    }
}

/// The end of the exponent part of a JSON number starting at `i`, if the
/// part is well formed (absent counts as well formed).
pub open spec fn spec_skip_exp(s: Seq<u8>, i: int) -> Option<int> {
    if 0 <= i < s.len() && (s[i] == 0x65 || s[i] == 0x45) {
        let j = if i + 1 < s.len() && (s[i + 1] == 0x2b || s[i + 1] == 0x2d) {
            i + 2
        } else {
            i + 1
        };
        if j < s.len() && is_digit_byte(s[j]) {
            Some(spec_skip_digits(s, j))
        } else {
            None
        }
    } else {
        Some(i)
    }
}

/// The end of the JSON number starting at `i`, if one stands there.
pub open spec fn spec_skip_number(s: Seq<u8>, i: int) -> Option<int> {
    let i1 = if 0 <= i < s.len() && s[i] == 0x2d {
        i + 1
    } else {
        i
    };
    if !(0 <= i1 < s.len() && is_digit_byte(s[i1])) {
        None
    } else {
        let i2 = if s[i1] == 0x30 {
            i1 + 1
        } else {
            spec_skip_digits(s, i1)
        };
        match spec_skip_frac(s, i2) {
            Some(i3) => match spec_skip_exp(s, i3) {
                Some(i4) => Some(i4),
                None => None,
            },
            None => None,
        }
    }
}

fn skip_number(s: &Vec<u8>, i: usize) -> (r: Option<usize>)
    requires
        i <= s@.len(),
    ensures
        as_int_opt(r) == spec_skip_number(s@, i as int),
        r matches Some(j) ==> i <= j <= s@.len(),
{
    let i1: usize = if i < s.len() && s[i] == 0x2d {
        i + 1
    } else {
        i
    };
    if !(i1 < s.len() && is_digit_exec(s[i1])) {
        return None;
    }
    let i2: usize = if s[i1] == 0x30 {
        i1 + 1
    } else {
        skip_digits(s, i1)
    };
    let i3: usize = if i2 < s.len() && s[i2] == 0x2e {
        if i2 + 1 < s.len() && is_digit_exec(s[i2 + 1]) {
            skip_digits(s, i2 + 1)
        } else {
            return None;
        }
    } else {
        i2
    };
    let i4: usize = if i3 < s.len() && (s[i3] == 0x65 || s[i3] == 0x45) {
        let j: usize = if i3 + 1 < s.len() && (s[i3 + 1] == 0x2b || s[i3 + 1] == 0x2d) {
            i3 + 2
        } else {
            i3 + 1
        };
        if j < s.len() && is_digit_exec(s[j]) {
            skip_digits(s, j)
        } else {
            return None;
        }
    } else {
        i3
    };
    Some(i4)
}

/// The value of one hexadecimal digit byte.
pub open spec fn spec_hex_val(b: u8) -> Option<int> {
    if 0x30 <= b <= 0x39 {
        Some(b - 0x30)
    } else if 0x61 <= b <= 0x66 {
        Some(b - 0x61 + 10)
    } else if 0x41 <= b <= 0x46 {
        Some(b - 0x41 + 10)
    } else {
        None
    }
}

/// The value of the four hexadecimal digits at `i`, if they stand there.
pub open spec fn spec_hex4(s: Seq<u8>, i: int) -> Option<int> {
    if 0 <= i && i + 4 <= s.len() {
        match (spec_hex_val(s[i]), spec_hex_val(s[i + 1]), spec_hex_val(s[i + 2]), spec_hex_val(
            s[i + 3],
        )) {
            (Some(a), Some(b), Some(c), Some(d)) => Some(a * 4096 + b * 256 + c * 16 + d),
            _ => None,
        }
    } else {
        None
    }
}

/// The UTF-8 encoding of one scalar value.
pub open spec fn spec_utf8_enc(c: int) -> Seq<u8> {
    if c < 0x80 {
        seq![c as u8]
    } else if c < 0x800 {
        seq![(0xc0 + c / 64) as u8, (0x80 + c % 64) as u8]
    } else if c < 0x10000 {
        seq![(0xe0 + c / 4096) as u8, (0x80 + (c / 64) % 64) as u8, (0x80 + c % 64) as u8]
    } else {
        seq![
            (0xf0 + c / 262144) as u8,
            (0x80 + (c / 4096) % 64) as u8,
            (0x80 + (c / 64) % 64) as u8,
            (0x80 + c % 64) as u8,
        ]
    }
}

/// A UTF-8 continuation byte.
pub open spec fn is_cont_byte(b: u8) -> bool {
    0x80 <= b <= 0xbf
}

fn is_cont_exec(b: u8) -> (r: bool)
    ensures
        r == is_cont_byte(b),
{
    0x80 <= b && b <= 0xbf
}

/// The decoded content and end position of the string whose opening
/// quote stands just before `i`. Escapes are decoded; an unescaped
/// control byte, a bad escape, a lone surrogate escape, a byte run
/// that is not well-formed UTF-8, or a missing closing quote make the
/// string malformed; a surrogate pair encodes its astral scalar.
pub open spec fn spec_str_body(s: Seq<u8>, i: int, acc: Seq<u8>) -> Option<(Seq<u8>, int)>
    decreases s.len() - i,
{
    if i < 0 || i >= s.len() {
        None
    } else {
        let b = s[i];
        if b == 0x22 {
            Some((acc, i + 1))
        } else if b == 0x5c {
            if i + 2 > s.len() {
                None
            } else {
                let e = s[i + 1];
                if e == 0x22 || e == 0x5c || e == 0x2f {
                    spec_str_body(s, i + 2, acc.push(e))
                } else if e == 0x62 {
                    spec_str_body(s, i + 2, acc.push(0x08))
                } else if e == 0x66 {
                    spec_str_body(s, i + 2, acc.push(0x0c))
                } else if e == 0x6e {
                    spec_str_body(s, i + 2, acc.push(0x0a))
                } else if e == 0x72 {
                    spec_str_body(s, i + 2, acc.push(0x0d))
                } else if e == 0x74 {
                    spec_str_body(s, i + 2, acc.push(0x09))
                } else if e == 0x75 {
                    if i + 6 > s.len() {
                        None
                    } else {
                        match spec_hex4(s, i + 2) {
                            Some(c) => if 0xdc00 <= c < 0xe000 {
                                None
                            } else if 0xd800 <= c < 0xdc00 {
                                if i + 12 > s.len() || s[i + 6] != 0x5c || s[i + 7] != 0x75 {
                                    None
                                } else {
                                    match spec_hex4(s, i + 8) {
                                        Some(c2) => if 0xdc00 <= c2 < 0xe000 {
                                            spec_str_body(
                                                s,
                                                i + 12,
                                                acc + spec_utf8_enc(
                                                    0x10000 + (c - 0xd800) * 1024 + (c2 - 0xdc00),
                                                ),
                                            )
                                        } else {
                                            None
                                        },
                                        None => None,
                                    }
                                }
                            } else {
                                spec_str_body(s, i + 6, acc + spec_utf8_enc(c))
                            },
                            None => None,
                        }
                    }
                } else {
                    None
                }
            }
        } else if b < 0x20 {
            None
        } else if b < 0x80 {
            spec_str_body(s, i + 1, acc.push(b))
        } else if 0xc2 <= b <= 0xdf {
            if i + 2 <= s.len() && is_cont_byte(s[i + 1]) {
                spec_str_body(s, i + 2, acc.push(b).push(s[i + 1]))
            } else {
                None
            }
        } else if b == 0xe0 {
            if i + 3 <= s.len() && 0xa0 <= s[i + 1] <= 0xbf && is_cont_byte(s[i + 2]) {
                spec_str_body(s, i + 3, acc.push(b).push(s[i + 1]).push(s[i + 2]))
            } else {
                None
            }
        } else if b == 0xed {
            if i + 3 <= s.len() && 0x80 <= s[i + 1] <= 0x9f && is_cont_byte(s[i + 2]) {
                spec_str_body(s, i + 3, acc.push(b).push(s[i + 1]).push(s[i + 2]))
            } else {
                None
            }
        } else if 0xe1 <= b <= 0xef {
            if i + 3 <= s.len() && is_cont_byte(s[i + 1]) && is_cont_byte(s[i + 2]) {
                spec_str_body(s, i + 3, acc.push(b).push(s[i + 1]).push(s[i + 2]))
            } else {
                None
            }
        } else if b == 0xf0 {
            if i + 4 <= s.len() && 0x90 <= s[i + 1] <= 0xbf && is_cont_byte(s[i + 2])
                && is_cont_byte(s[i + 3]) {
                spec_str_body(s, i + 4, acc.push(b).push(s[i + 1]).push(s[i + 2]).push(s[i + 3]))
            } else {
                None
            }
        } else if b == 0xf4 {
            if i + 4 <= s.len() && 0x80 <= s[i + 1] <= 0x8f && is_cont_byte(s[i + 2])
                && is_cont_byte(s[i + 3]) {
                spec_str_body(s, i + 4, acc.push(b).push(s[i + 1]).push(s[i + 2]).push(s[i + 3]))
            } else {
                None
            }
        } else if 0xf1 <= b <= 0xf3 {
            if i + 4 <= s.len() && is_cont_byte(s[i + 1]) && is_cont_byte(s[i + 2])
                && is_cont_byte(s[i + 3]) {
                spec_str_body(s, i + 4, acc.push(b).push(s[i + 1]).push(s[i + 2]).push(s[i + 3]))
            } else {
                None
            }
        } else {
            None
        }
    }
}

/// The end of the JSON value starting exactly at `i`, if a well-formed
/// value stands there. A sub-parse that does not advance counts as
/// malformed, which keeps the recursion well founded.
pub open spec fn spec_skip_value(s: Seq<u8>, i: int) -> Option<int>
    decreases s.len() - i, 0int,
{
    if i < 0 || i >= s.len() {
        None
    } else {
        let b = s[i];
        if b == 0x22 {
            match spec_str_body(s, i + 1, Seq::empty()) {
                Some((c, j)) => Some(j),
                None => None,
            }
        } else if b == 0x74 {
            if i + 4 <= s.len() && s[i + 1] == 0x72 && s[i + 2] == 0x75 && s[i + 3] == 0x65 {
                Some(i + 4)
            } else {
                None
            }
        } else if b == 0x66 {
            if i + 5 <= s.len() && s[i + 1] == 0x61 && s[i + 2] == 0x6c && s[i + 3] == 0x73 && s[i
                + 4] == 0x65 {
                Some(i + 5)
            } else {
                None
            }
        } else if b == 0x6e {
            if i + 4 <= s.len() && s[i + 1] == 0x75 && s[i + 2] == 0x6c && s[i + 3] == 0x6c {
                Some(i + 4)
            } else {
                None
            }
        } else if b == 0x5b {
            spec_skip_arr_first(s, i + 1)
        } else if b == 0x7b {
            spec_skip_obj_first(s, i + 1)
        } else {
            spec_skip_number(s, i)
        }
    }
}

/// The end of an array whose `[` stands just before `i`: either `]`
/// right away or a first element followed by the comma-separated rest.
pub open spec fn spec_skip_arr_first(s: Seq<u8>, i: int) -> Option<int>
    decreases s.len() - i, 2int,
{
    let j = spec_skip_ws(s, i);
    if j < i || j >= s.len() {
        None
    } else if s[j] == 0x5d {
        Some(j + 1)
    } else {
        match spec_skip_value(s, j) {
            Some(k) => if k <= j || k > s.len() {
                None
            } else {
                spec_skip_arr_rest(s, k)
            },
            None => None,
        }
    }
}

/// The end of an array continued after one element: `]` or `,` and a
/// further element.
pub open spec fn spec_skip_arr_rest(s: Seq<u8>, i: int) -> Option<int>
    decreases s.len() - i, 3int,
{
    let j = spec_skip_ws(s, i);
    if j < i || j >= s.len() {
        None
    } else if s[j] == 0x5d {
        Some(j + 1)
    } else if s[j] == 0x2c {
        let m = spec_skip_ws(s, j + 1);
        if m < j + 1 || m > s.len() {
            None
        } else {
            match spec_skip_value(s, m) {
                Some(k) => if k <= m || k > s.len() {
                    None
                } else {
                    spec_skip_arr_rest(s, k)
                },
                None => None,
            }
        }
    } else {
        None
    }
}

/// The end of one `"key": value` member whose key's quote stands at `p`.
pub open spec fn spec_skip_member(s: Seq<u8>, p: int) -> Option<int>
    decreases s.len() - p, 1int,
{
    if p < 0 || p >= s.len() || s[p] != 0x22 {
        None
    } else {
        match spec_str_body(s, p + 1, Seq::empty()) {
            Some((key, k)) => if k <= p + 1 || k > s.len() {
                None
            } else {
                let c = spec_skip_ws(s, k);
                if c < k || c >= s.len() || s[c] != 0x3a {
                    None
                } else {
                    let v0 = spec_skip_ws(s, c + 1);
                    if v0 < c + 1 || v0 > s.len() {
                        None
                    } else {
                        match spec_skip_value(s, v0) {
                            Some(e) => if e <= v0 {
                                None
                            } else {
                                Some(e)
                            },
                            None => None,
                        }
                    }
                }
            },
            None => None,
        }
    }
}

/// The end of an object whose `{` stands just before `i`.
pub open spec fn spec_skip_obj_first(s: Seq<u8>, i: int) -> Option<int>
    decreases s.len() - i, 4int,
{
    let j = spec_skip_ws(s, i);
    if j < i || j >= s.len() {
        None
    } else if s[j] == 0x7d {
        Some(j + 1)
    } else {
        match spec_skip_member(s, j) {
            Some(k) => if k <= j || k > s.len() {
                None
            } else {
                spec_skip_obj_rest(s, k)
            },
            None => None,
        }
    }
}

/// The end of an object continued after one member: `}` or `,` and a
/// further member.
pub open spec fn spec_skip_obj_rest(s: Seq<u8>, i: int) -> Option<int>
    decreases s.len() - i, 5int,
{
    let j = spec_skip_ws(s, i);
    if j < i || j >= s.len() {
        None
    } else if s[j] == 0x7d {
        Some(j + 1)
    } else if s[j] == 0x2c {
        let m = spec_skip_ws(s, j + 1);
        if m < j + 1 || m > s.len() {
            None
        } else {
            match spec_skip_member(s, m) {
                Some(k) => if k <= m || k > s.len() {
                    None
                } else {
                    spec_skip_obj_rest(s, k)
                },
                None => None,
            }
        }
    } else {
        None
    }
}

fn skip_value(s: &Vec<u8>, i: usize) -> (r: Option<usize>)
    requires
        i <= s@.len(),
    ensures
        as_int_opt(r) == spec_skip_value(s@, i as int),
        r matches Some(j) ==> i <= j <= s@.len(),
    decreases s@.len() - i, 0int,
{
    if i >= s.len() {
        return None;
    }
    let b = s[i];
    if b == 0x22 {
        match parse_string_body(s, i + 1) {
            Some((c, j)) => Some(j),
            None => None,
        }
    } else if b == 0x74 {
        if s.len() - i >= 4 && s[i + 1] == 0x72 && s[i + 2] == 0x75 && s[i + 3] == 0x65 {
            Some(i + 4)
        } else {
            None
        }
    } else if b == 0x66 {
        if s.len() - i >= 5 && s[i + 1] == 0x61 && s[i + 2] == 0x6c && s[i + 3] == 0x73 && s[i + 4]
            == 0x65 {
            Some(i + 5)
        } else {
            None
        }
    } else if b == 0x6e {
        if s.len() - i >= 4 && s[i + 1] == 0x75 && s[i + 2] == 0x6c && s[i + 3] == 0x6c {
            Some(i + 4)
        } else {
            None
        }
    } else if b == 0x5b {
        skip_arr_first(s, i + 1)
    } else if b == 0x7b {
        skip_obj_first(s, i + 1)
    } else {
        skip_number(s, i)
    }
}

fn skip_arr_first(s: &Vec<u8>, i: usize) -> (r: Option<usize>)
    requires
        i <= s@.len(),
    ensures
        as_int_opt(r) == spec_skip_arr_first(s@, i as int),
        r matches Some(j) ==> i <= j <= s@.len(),
    decreases s@.len() - i, 2int,
{
    let j = skip_ws(s, i);
    if j >= s.len() {
        return None;
    }
    if s[j] == 0x5d {
        return Some(j + 1);
    }
    match skip_value(s, j) {
        Some(k) => if k <= j {
            None
        } else {
            skip_arr_rest(s, k)
        },
        None => None,
    }
}

fn skip_arr_rest(s: &Vec<u8>, i: usize) -> (r: Option<usize>)
    requires
        i <= s@.len(),
    ensures
        as_int_opt(r) == spec_skip_arr_rest(s@, i as int),
        r matches Some(j) ==> i <= j <= s@.len(),
    decreases s@.len() - i, 3int,
{
    let j = skip_ws(s, i);
    if j >= s.len() {
        return None;
    }
    if s[j] == 0x5d {
        return Some(j + 1);
    }
    if s[j] == 0x2c {
        let m = skip_ws(s, j + 1);
        match skip_value(s, m) {
            Some(k) => if k <= m {
                None
            } else {
                skip_arr_rest(s, k)
            },
            None => None,
        }
    } else {
        None
    }
}

fn skip_member(s: &Vec<u8>, p: usize) -> (r: Option<usize>)
    requires
        p <= s@.len(),
    ensures
        as_int_opt(r) == spec_skip_member(s@, p as int),
        r matches Some(j) ==> p <= j <= s@.len(),
    decreases s@.len() - p, 1int,
{
    if p >= s.len() || s[p] != 0x22 {
        return None;
    }
    match parse_string_body(s, p + 1) {
        Some((key, k)) => {
            let c = skip_ws(s, k);
            if c >= s.len() || s[c] != 0x3a {
                return None;
            }
            let v0 = skip_ws(s, c + 1);
            match skip_value(s, v0) {
                Some(e) => if e <= v0 {
                    None
                } else {
                    Some(e)
                },
                None => None,
            }
        },
        None => None,
    }
}

fn skip_obj_first(s: &Vec<u8>, i: usize) -> (r: Option<usize>)
    requires
        i <= s@.len(),
    ensures
        as_int_opt(r) == spec_skip_obj_first(s@, i as int),
        r matches Some(j) ==> i <= j <= s@.len(),
    decreases s@.len() - i, 4int,
{
    let j = skip_ws(s, i);
    if j >= s.len() {
        return None;
    }
    if s[j] == 0x7d {
        return Some(j + 1);
    }
    match skip_member(s, j) {
        Some(k) => if k <= j {
            None
        } else {
            skip_obj_rest(s, k)
        },
        None => None,
    }
}

fn skip_obj_rest(s: &Vec<u8>, i: usize) -> (r: Option<usize>)
    requires
        i <= s@.len(),
    ensures
        as_int_opt(r) == spec_skip_obj_rest(s@, i as int),
        r matches Some(j) ==> i <= j <= s@.len(),
    decreases s@.len() - i, 5int,
{
    let j = skip_ws(s, i);
    if j >= s.len() {
        return None;
    }
    if s[j] == 0x7d {
        return Some(j + 1);
    }
    if s[j] == 0x2c {
        let m = skip_ws(s, j + 1);
        match skip_member(s, m) {
            Some(k) => if k <= m {
                None
            } else {
                skip_obj_rest(s, k)
            },
            None => None,
        }
    } else {
        None
    }
}

fn hex_val(b: u8) -> (r: Option<u8>)
    ensures
        match r {
            Some(v) => spec_hex_val(b) == Some(v as int) && v < 16,
            None => spec_hex_val(b) is None,
        },
{
    if 0x30 <= b && b <= 0x39 {
        Some(b - 0x30)
    } else if 0x61 <= b && b <= 0x66 {
        Some(b - 0x61 + 10)
    } else if 0x41 <= b && b <= 0x46 {
        Some(b - 0x41 + 10)
    } else {
        None
    }
}

fn hex4(s: &Vec<u8>, i: usize) -> (r: Option<u32>)
    requires
        i <= s@.len(),
    ensures
        match r {
            Some(c) => spec_hex4(s@, i as int) == Some(c as int) && c < 0x10000,
            None => spec_hex4(s@, i as int) is None,
        },
{
    if s.len() - i < 4 {
        return None;
    }
    let a = match hex_val(s[i]) {
        Some(v) => v,
        None => {
            return None;
        },
    };
    let b = match hex_val(s[i + 1]) {
        Some(v) => v,
        None => {
            return None;
        },
    };
    let c = match hex_val(s[i + 2]) {
        Some(v) => v,
        None => {
            return None;
        },
    };
    let d = match hex_val(s[i + 3]) {
        Some(v) => v,
        None => {
            return None;
        },
    };
    Some((a as u32) * 4096 + (b as u32) * 256 + (c as u32) * 16 + (d as u32))
}

/// Decodes the body of the string whose opening quote stands just before
/// `i`: the content bytes and the position after the closing quote.
fn parse_string_body(s: &Vec<u8>, i: usize) -> (r: Option<(Vec<u8>, usize)>)
    requires
        i <= s@.len(),
    ensures
        match r {
            Some((v, j)) => i < j <= s@.len() && spec_str_body(s@, i as int, Seq::empty())
                == Some((v@, j as int)),
            None => spec_str_body(s@, i as int, Seq::empty()) is None,
        },
{
    let mut acc: Vec<u8> = Vec::new();
    let mut j: usize = i;
    loop
        invariant
            i <= j <= s@.len(),
            spec_str_body(s@, i as int, Seq::empty()) == spec_str_body(s@, j as int, acc@),
        decreases s@.len() - j,
    {
        if j >= s.len() {
            return None;
        }
        let b = s[j];
        if b == 0x22 {
            let ghost res = spec_str_body(s@, j as int, acc@);
            proof {
                assert(res == Some((acc@, j as int + 1)));
            }
            return Some((acc, j + 1));
        } else if b == 0x5c {
            if s.len() - j < 2 {
                return None;
            }
            let e = s[j + 1];
            if e == 0x22 || e == 0x5c || e == 0x2f {
                acc.push(e);
                j = j + 2;
            } else if e == 0x62 {
                acc.push(0x08);
                j = j + 2;
            } else if e == 0x66 {
                acc.push(0x0c);
                j = j + 2;
            } else if e == 0x6e {
                acc.push(0x0a);
                j = j + 2;
            } else if e == 0x72 {
                acc.push(0x0d);
                j = j + 2;
            } else if e == 0x74 {
                acc.push(0x09);
                j = j + 2;
            } else if e == 0x75 {
                if s.len() - j < 6 {
                    return None;
                }
                let c = match hex4(s, j + 2) {
                    Some(c) => c,
                    None => {
                        return None;
                    },
                };
                if 0xdc00 <= c && c < 0xe000 {
                    return None;
                }
                if 0xd800 <= c && c < 0xdc00 {
                    if s.len() - j < 12 || s[j + 6] != 0x5c || s[j + 7] != 0x75 {
                        return None;
                    }
                    let c2 = match hex4(s, j + 8) {
                        Some(v) => v,
                        None => {
                            return None;
                        },
                    };
                    if !(0xdc00 <= c2 && c2 < 0xe000) {
                        return None;
                    }
                    let scalar: u32 = 0x10000 + (c - 0xd800) * 1024 + (c2 - 0xdc00);
                    let ghost acc_old = acc@;
                    acc.push((0xf0 + scalar / 262144) as u8);
                    acc.push((0x80 + (scalar / 4096) % 64) as u8);
                    acc.push((0x80 + (scalar / 64) % 64) as u8);
                    acc.push((0x80 + scalar % 64) as u8);
                    proof {
                        assert(acc@ =~= acc_old + spec_utf8_enc(scalar as int));
                    }
                    j = j + 12;
                } else {
                    let ghost acc_old = acc@;
                    if c < 0x80 {
                        acc.push(c as u8);
                    } else if c < 0x800 {
                        acc.push((0xc0 + c / 64) as u8);
                        acc.push((0x80 + c % 64) as u8);
                    } else {
                        acc.push((0xe0 + c / 4096) as u8);
                        acc.push((0x80 + (c / 64) % 64) as u8);
                        acc.push((0x80 + c % 64) as u8);
                    }
                    proof {
                        assert(acc@ =~= acc_old + spec_utf8_enc(c as int));
                    }
                    j = j + 6;
                }
            } else {
                return None;
            }
        } else if b < 0x20 {
            return None;
        } else if b < 0x80 {
            acc.push(b);
            j = j + 1;
        } else if 0xc2 <= b && b <= 0xdf {
            if !(s.len() - j >= 2 && is_cont_exec(s[j + 1])) {
                return None;
            }
            acc.push(b);
            acc.push(s[j + 1]);
            j = j + 2;
        } else if b == 0xe0 {
            if !(s.len() - j >= 3 && 0xa0 <= s[j + 1] && s[j + 1] <= 0xbf && is_cont_exec(
                s[j + 2],
            )) {
                return None;
            }
            acc.push(b);
            acc.push(s[j + 1]);
            acc.push(s[j + 2]);
            j = j + 3;
        } else if b == 0xed {
            if !(s.len() - j >= 3 && 0x80 <= s[j + 1] && s[j + 1] <= 0x9f && is_cont_exec(
                s[j + 2],
            )) {
                return None;
            }
            acc.push(b);
            acc.push(s[j + 1]);
            acc.push(s[j + 2]);
            j = j + 3;
        } else if 0xe1 <= b && b <= 0xef {
            if !(s.len() - j >= 3 && is_cont_exec(s[j + 1]) && is_cont_exec(s[j + 2])) {
                return None;
            }
            acc.push(b);
            acc.push(s[j + 1]);
            acc.push(s[j + 2]);
            j = j + 3;
        } else if b == 0xf0 {
            if !(s.len() - j >= 4 && 0x90 <= s[j + 1] && s[j + 1] <= 0xbf && is_cont_exec(s[j + 2])
                && is_cont_exec(s[j + 3])) {
                return None;
            }
            acc.push(b);
            acc.push(s[j + 1]);
            acc.push(s[j + 2]);
            acc.push(s[j + 3]);
            j = j + 4;
        } else if b == 0xf4 {
            if !(s.len() - j >= 4 && 0x80 <= s[j + 1] && s[j + 1] <= 0x8f && is_cont_exec(s[j + 2])
                && is_cont_exec(s[j + 3])) {
                return None;
            }
            acc.push(b);
            acc.push(s[j + 1]);
            acc.push(s[j + 2]);
            acc.push(s[j + 3]);
            j = j + 4;
        } else if 0xf1 <= b && b <= 0xf3 {
            if !(s.len() - j >= 4 && is_cont_exec(s[j + 1]) && is_cont_exec(s[j + 2])
                && is_cont_exec(s[j + 3])) {
                return None;
            }
            acc.push(b);
            acc.push(s[j + 1]);
            acc.push(s[j + 2]);
            acc.push(s[j + 3]);
            j = j + 4;
        } else {
            return None;
        }
    }
}

/// The member key `x` as bytes.
pub open spec fn key_x() -> Seq<u8> {
    seq![120u8]
}

/// The member key `y` as bytes.
pub open spec fn key_y() -> Seq<u8> {
    seq![121u8]
}

/// The member key `width` as bytes.
pub open spec fn key_width() -> Seq<u8> {
    seq![119u8, 105u8, 100u8, 116u8, 104u8]
}

/// The member key `height` as bytes.
pub open spec fn key_height() -> Seq<u8> {
    seq![104u8, 101u8, 105u8, 103u8, 104u8, 116u8]
}

/// The member key `id` as bytes.
pub open spec fn key_id() -> Seq<u8> {
    seq![105u8, 100u8]
}

/// The member key `name` as bytes.
pub open spec fn key_name() -> Seq<u8> {
    seq![110u8, 97u8, 109u8, 101u8]
}

/// The member key `rect` as bytes.
pub open spec fn key_rect() -> Seq<u8> {
    seq![114u8, 101u8, 99u8, 116u8]
}

/// The member key `layout` as bytes.
pub open spec fn key_layout() -> Seq<u8> {
    seq![108u8, 97u8, 121u8, 111u8, 117u8, 116u8]
}

/// The member key `urgent` as bytes.
pub open spec fn key_urgent() -> Seq<u8> {
    seq![117u8, 114u8, 103u8, 101u8, 110u8, 116u8]
}

/// The member key `fullscreen_mode` as bytes.
pub open spec fn key_fullscreen_mode() -> Seq<u8> {
    seq![
        102u8,
        117u8,
        108u8,
        108u8,
        115u8,
        99u8,
        114u8,
        101u8,
        101u8,
        110u8,
        95u8,
        109u8,
        111u8,
        100u8,
        101u8,
    ]
}

/// The member key `output` as bytes.
pub open spec fn key_output() -> Seq<u8> {
    seq![111u8, 117u8, 116u8, 112u8, 117u8, 116u8]
}

/// The member key `focused` as bytes.
pub open spec fn key_focused() -> Seq<u8> {
    seq![102u8, 111u8, 99u8, 117u8, 115u8, 101u8, 100u8]
}

/// The member key `visible` as bytes.
pub open spec fn key_visible() -> Seq<u8> {
    seq![118u8, 105u8, 115u8, 105u8, 98u8, 108u8, 101u8]
}

fn eq_bytes(k: &Vec<u8>, pat: &Vec<u8>) -> (r: bool)
    ensures
        r == (k@ == pat@),
{
    if k.len() != pat.len() {
        return false;
    }
    let mut i: usize = 0;
    while i < k.len()
        invariant
            i <= k@.len(),
            k@.len() == pat@.len(),
            forall|t: int| 0 <= t < i ==> k@[t] == pat@[t],
        decreases k@.len() - i,
    {
        if k[i] != pat[i] {
            return false;
        }
        i = i + 1;
    }
    proof {
        assert(k@ =~= pat@);
    }
    true
}

/// Which record member a decoded key names.
#[derive(Clone, Copy, Debug, PartialEq, Eq, Structural)]
pub enum KeyKind {
    X,
    Y,
    Width,
    Height,
    Id,
    Name,
    RectK,
    Layout,
    Urgent,
    FullscreenMode,
    Output,
    Focused,
    Visible,
    Other,
}

/// Which record member a decoded key names.
pub open spec fn spec_key_kind(k: Seq<u8>) -> KeyKind {
    if k == key_x() {
        KeyKind::X
    } else if k == key_y() {
        KeyKind::Y
    } else if k == key_width() {
        KeyKind::Width
    } else if k == key_height() {
        KeyKind::Height
    } else if k == key_id() {
        KeyKind::Id
    } else if k == key_name() {
        KeyKind::Name
    } else if k == key_rect() {
        KeyKind::RectK
    } else if k == key_layout() {
        KeyKind::Layout
    } else if k == key_urgent() {
        KeyKind::Urgent
    } else if k == key_fullscreen_mode() {
        KeyKind::FullscreenMode
    } else if k == key_output() {
        KeyKind::Output
    } else if k == key_focused() {
        KeyKind::Focused
    } else if k == key_visible() {
        KeyKind::Visible
    } else {
        KeyKind::Other
    }
}

fn classify_key(k: &Vec<u8>) -> (r: KeyKind)
    ensures
        r == spec_key_kind(k@),
{
    let mut pat: Vec<u8> = Vec::new();
    pat.push(120);
    proof {
        assert(pat@ =~= key_x());
    }
    if eq_bytes(k, &pat) {
        return KeyKind::X;
    }
    let mut pat: Vec<u8> = Vec::new();
    pat.push(121);
    proof {
        assert(pat@ =~= key_y());
    }
    if eq_bytes(k, &pat) {
        return KeyKind::Y;
    }
    let mut pat: Vec<u8> = Vec::new();
    pat.push(119);
    pat.push(105);
    pat.push(100);
    pat.push(116);
    pat.push(104);
    proof {
        assert(pat@ =~= key_width());
    }
    if eq_bytes(k, &pat) {
        return KeyKind::Width;
    }
    let mut pat: Vec<u8> = Vec::new();
    pat.push(104);
    pat.push(101);
    pat.push(105);
    pat.push(103);
    pat.push(104);
    pat.push(116);
    proof {
        assert(pat@ =~= key_height());
    }
    if eq_bytes(k, &pat) {
        return KeyKind::Height;
    }
    let mut pat: Vec<u8> = Vec::new();
    pat.push(105);
    pat.push(100);
    proof {
        assert(pat@ =~= key_id());
    }
    if eq_bytes(k, &pat) {
        return KeyKind::Id;
    }
    let mut pat: Vec<u8> = Vec::new();
    pat.push(110);
    pat.push(97);
    pat.push(109);
    pat.push(101);
    proof {
        assert(pat@ =~= key_name());
    }
    if eq_bytes(k, &pat) {
        return KeyKind::Name;
    }
    let mut pat: Vec<u8> = Vec::new();
    pat.push(114);
    pat.push(101);
    pat.push(99);
    pat.push(116);
    proof {
        assert(pat@ =~= key_rect());
    }
    if eq_bytes(k, &pat) {
        return KeyKind::RectK;
    }
    let mut pat: Vec<u8> = Vec::new();
    pat.push(108);
    pat.push(97);
    pat.push(121);
    pat.push(111);
    pat.push(117);
    pat.push(116);
    proof {
        assert(pat@ =~= key_layout());
    }
    if eq_bytes(k, &pat) {
        return KeyKind::Layout;
    }
    let mut pat: Vec<u8> = Vec::new();
    pat.push(117);
    pat.push(114);
    pat.push(103);
    pat.push(101);
    pat.push(110);
    pat.push(116);
    proof {
        assert(pat@ =~= key_urgent());
    }
    if eq_bytes(k, &pat) {
        return KeyKind::Urgent;
    }
    let mut pat: Vec<u8> = Vec::new();
    pat.push(102);
    pat.push(117);
    pat.push(108);
    pat.push(108);
    pat.push(115);
    pat.push(99);
    pat.push(114);
    pat.push(101);
    pat.push(101);
    pat.push(110);
    pat.push(95);
    pat.push(109);
    pat.push(111);
    pat.push(100);
    pat.push(101);
    proof {
        assert(pat@ =~= key_fullscreen_mode());
    }
    if eq_bytes(k, &pat) {
        return KeyKind::FullscreenMode;
    }
    let mut pat: Vec<u8> = Vec::new();
    pat.push(111);
    pat.push(117);
    pat.push(116);
    pat.push(112);
    pat.push(117);
    pat.push(116);
    proof {
        assert(pat@ =~= key_output());
    }
    if eq_bytes(k, &pat) {
        return KeyKind::Output;
    }
    let mut pat: Vec<u8> = Vec::new();
    pat.push(102);
    pat.push(111);
    pat.push(99);
    pat.push(117);
    pat.push(115);
    pat.push(101);
    pat.push(100);
    proof {
        assert(pat@ =~= key_focused());
    }
    if eq_bytes(k, &pat) {
        return KeyKind::Focused;
    }
    let mut pat: Vec<u8> = Vec::new();
    pat.push(118);
    pat.push(105);
    pat.push(115);
    pat.push(105);
    pat.push(98);
    pat.push(108);
    pat.push(101);
    proof {
        assert(pat@ =~= key_visible());
    }
    if eq_bytes(k, &pat) {
        return KeyKind::Visible;
    }
    KeyKind::Other
}

/// The decoded integer and end position of the JSON integer at `i`: an
/// optional minus sign and decimal digits with no leading zero, no
/// fraction and no exponent, within the range of 64-bit integers.
pub open spec fn spec_digits_acc(s: Seq<u8>, i: int, acc: int) -> Option<(int, int)>
    decreases s.len() - i,
{
    if 0 <= i < s.len() && is_digit_byte(s[i]) {
        let d = s[i] - 0x30;
        if acc > 922337203685477580 || (acc == 922337203685477580 && d > 7) {
            None
        } else {
            spec_digits_acc(s, i + 1, acc * 10 + d)
        }
    } else {
        Some((acc, i))
    }
}

/// The decoded integer value starting at `i`, if one stands there.
pub open spec fn spec_parse_int(s: Seq<u8>, i: int) -> Option<(int, int)> {
    let neg = 0 <= i < s.len() && s[i] == 0x2d;
    let i1 = if neg {
        i + 1
    } else {
        i
    };
    if !(0 <= i1 < s.len() && is_digit_byte(s[i1])) {
        None
    } else if s[i1] == 0x30 {
        Some((0, i1 + 1))
    } else {
        match spec_digits_acc(s, i1, 0) {
            Some((v, j)) => Some((if neg { -v } else { v }, j)),
            None => None,
        }
    }
}

#[verifier::loop_isolation(false)]
fn parse_int(s: &Vec<u8>, i: usize) -> (r: Option<(i64, usize)>)
    requires
        i <= s@.len(),
    ensures
        match r {
            Some((v, j)) => i <= j <= s@.len() && spec_parse_int(s@, i as int) == Some(
                (v as int, j as int),
            ),
            None => spec_parse_int(s@, i as int) is None,
        },
{
    let neg = i < s.len() && s[i] == 0x2d;
    let i1: usize = if neg {
        i + 1
    } else {
        i
    };
    if !(i1 < s.len() && is_digit_exec(s[i1])) {
        return None;
    }
    if s[i1] == 0x30 {
        return Some((0, i1 + 1));
    }
    let mut acc: i64 = 0;
    let mut j: usize = i1;
    while j < s.len() && is_digit_exec(s[j])
        invariant
            i1 <= j <= s@.len(),
            0 <= acc,
            spec_digits_acc(s@, i1 as int, 0) == spec_digits_acc(s@, j as int, acc as int),
        decreases s@.len() - j,
    {
        let d = s[j] - 0x30;
        if acc > 922337203685477580 || (acc == 922337203685477580 && d > 7) {
            proof {
                assert(spec_digits_acc(s@, j as int, acc as int) is None);
            }
            return None;
        }
        acc = acc * 10 + (d as i64);
        j = j + 1;
    }
    proof {
        assert(spec_digits_acc(s@, j as int, acc as int) == Some((acc as int, j as int)));
    }
    let v: i64 = if neg {
        -acc
    } else {
        acc
    };
    Some((v, j))
}

/// The decoded boolean and end position of the literal at `i`.
pub open spec fn spec_parse_bool(s: Seq<u8>, i: int) -> Option<(bool, int)> {
    if 0 <= i && i + 4 <= s.len() && s[i] == 0x74 && s[i + 1] == 0x72 && s[i + 2] == 0x75 && s[i
        + 3] == 0x65 {
        Some((true, i + 4))
    } else if 0 <= i && i + 5 <= s.len() && s[i] == 0x66 && s[i + 1] == 0x61 && s[i + 2] == 0x6c
        && s[i + 3] == 0x73 && s[i + 4] == 0x65 {
        Some((false, i + 5))
    } else {
        None
    }
}

fn parse_bool(s: &Vec<u8>, i: usize) -> (r: Option<(bool, usize)>)
    requires
        i <= s@.len(),
    ensures
        match r {
            Some((v, j)) => i <= j <= s@.len() && spec_parse_bool(s@, i as int) == Some(
                (v, j as int),
            ),
            None => spec_parse_bool(s@, i as int) is None,
        },
{
    if i < s.len() && s[i] == 0x74 {
        if s.len() - i >= 4 && s[i + 1] == 0x72 && s[i + 2] == 0x75 && s[i + 3] == 0x65 {
            Some((true, i + 4))
        } else {
            None
        }
    } else if i < s.len() && s[i] == 0x66 {
        if s.len() - i >= 5 && s[i + 1] == 0x61 && s[i + 2] == 0x6c && s[i + 3] == 0x73 && s[i + 4]
            == 0x65 {
            Some((false, i + 5))
        } else {
            None
        }
    } else {
        None
    }
}

/// The decoded content and end position of the JSON string at `i`.
pub open spec fn spec_parse_string(s: Seq<u8>, i: int) -> Option<(Seq<u8>, int)> {
    if 0 <= i < s.len() && s[i] == 0x22 {
        spec_str_body(s, i + 1, Seq::empty())
    } else {
        None
    }
}

fn parse_string(s: &Vec<u8>, i: usize) -> (r: Option<(Vec<u8>, usize)>)
    requires
        i <= s@.len(),
    ensures
        match r {
            Some((v, j)) => i + 1 < j <= s@.len() && spec_parse_string(s@, i as int) == Some(
                (v@, j as int),
            ),
            None => spec_parse_string(s@, i as int) is None,
        },
{
    if i < s.len() && s[i] == 0x22 {
        parse_string_body(s, i + 1)
    } else {
        None
    }
}

/// The bit a rect member occupies in the seen-member mask.
pub open spec fn spec_rect_bit(kind: KeyKind) -> u8 {
    if kind == KeyKind::X {
        1u8
    } else if kind == KeyKind::Y {
        2u8
    } else if kind == KeyKind::Width {
        4u8
    } else {
        8u8
    }
}

/// The rectangle `r` with the member named by `kind` set to `v`.
pub open spec fn spec_rect_field_set(r: Rect, kind: KeyKind, v: i64) -> Rect {
    if kind == KeyKind::X {
        Rect { x: v, y: r.y, width: r.width, height: r.height }
    } else if kind == KeyKind::Y {
        Rect { x: r.x, y: v, width: r.width, height: r.height }
    } else if kind == KeyKind::Width {
        Rect { x: r.x, y: r.y, width: v, height: r.height }
    } else {
        Rect { x: r.x, y: r.y, width: r.width, height: v }
    }
}

/// One `"key": value` member of a geometry object, applied to the
/// partial rectangle and its seen-member mask. A known member must be
/// an integer and may appear only once; an unknown member is skipped.
pub open spec fn spec_rect_member(s: Seq<u8>, p: int, acc: (Rect, u8)) -> Option<
    ((Rect, u8), int),
> {
    match spec_parse_string(s, p) {
        Some((key, k)) => if k <= p + 1 || k > s.len() {
            None
        } else {
            let c = spec_skip_ws(s, k);
            if c < k || c >= s.len() || s[c] != 0x3a {
                None
            } else {
                let v0 = spec_skip_ws(s, c + 1);
                if v0 < c + 1 || v0 > s.len() {
                    None
                } else {
                    let kind = spec_key_kind(key);
                    if kind == KeyKind::X || kind == KeyKind::Y || kind == KeyKind::Width || kind
                        == KeyKind::Height {
                        if acc.1 & spec_rect_bit(kind) != 0 {
                            None
                        } else {
                            match spec_parse_int(s, v0) {
                                Some((v, e)) => Some(
                                    (
                                        (
                                            spec_rect_field_set(acc.0, kind, v as i64),
                                            acc.1 | spec_rect_bit(kind),
                                        ),
                                        e,
                                    ),
                                ),
                                None => None,
                            }
                        }
                    } else {
                        match spec_skip_value(s, v0) {
                            Some(e) => if e <= v0 || e > s.len() {
                                None
                            } else {
                                Some((acc, e))
                            },
                            None => None,
                        }
                    }
                }
            }
        },
        None => None,
    }
}

/// The members of a geometry object from `i` (just after `{` when
/// `first` holds, after a member otherwise) up to its closing `}`.
pub open spec fn spec_rect_members(s: Seq<u8>, i: int, acc: (Rect, u8), first: bool) -> Option<
    ((Rect, u8), int),
>
    decreases s.len() - i,
{
    let j = spec_skip_ws(s, i);
    if j < i || j >= s.len() {
        None
    } else if s[j] == 0x7d {
        Some((acc, j + 1))
    } else if first {
        match spec_rect_member(s, j, acc) {
            Some((a2, e)) => if e <= j || e > s.len() {
                None
            } else {
                spec_rect_members(s, e, a2, false)
            },
            None => None,
        }
    } else if s[j] == 0x2c {
        let m = spec_skip_ws(s, j + 1);
        if m < j + 1 || m > s.len() {
            None
        } else {
            match spec_rect_member(s, m, acc) {
                Some((a2, e)) => if e <= m || e > s.len() {
                    None
                } else {
                    spec_rect_members(s, e, a2, false)
                },
                None => None,
            }
        }
    } else {
        None
    }
}

/// The geometry object at `i`: all four coordinates present exactly
/// once, each an integer.
pub open spec fn spec_parse_rect(s: Seq<u8>, i: int) -> Option<(Rect, int)> {
    if 0 <= i < s.len() && s[i] == 0x7b {
        match spec_rect_members(s, i + 1, (Rect { x: 0, y: 0, width: 0, height: 0 }, 0u8), true) {
            Some(((r, m), e)) => if m == 15 {
                Some((r, e))
            } else {
                None
            },
            None => None,
        }
    } else {
        None
    }
}

fn rect_bit(kind: KeyKind) -> (r: u8)
    ensures
        r == spec_rect_bit(kind),
{
    if kind == KeyKind::X {
        1
    } else if kind == KeyKind::Y {
        2
    } else if kind == KeyKind::Width {
        4
    } else {
        8
    }
}

fn parse_rect_member(s: &Vec<u8>, p: usize, acc: (Rect, u8)) -> (r: Option<((Rect, u8), usize)>)
    requires
        p <= s@.len(),
    ensures
        match r {
            Some((a2, e)) => p < e <= s@.len() && spec_rect_member(s@, p as int, acc) == Some(
                (a2, e as int),
            ),
            None => spec_rect_member(s@, p as int, acc) is None,
        },
{
    let (key, k) = match parse_string(s, p) {
        Some(x) => x,
        None => {
            return None;
        },
    };
    let c = skip_ws(s, k);
    if c >= s.len() || s[c] != 0x3a {
        return None;
    }
    let v0 = skip_ws(s, c + 1);
    let kind = classify_key(&key);
    if kind == KeyKind::X || kind == KeyKind::Y || kind == KeyKind::Width || kind
        == KeyKind::Height {
        let bit = rect_bit(kind);
        if acc.1 & bit != 0 {
            return None;
        }
        match parse_int(s, v0) {
            Some((v, e)) => {
                let r0 = if kind == KeyKind::X {
                    Rect { x: v, ..acc.0 }
                } else if kind == KeyKind::Y {
                    Rect { y: v, ..acc.0 }
                } else if kind == KeyKind::Width {
                    Rect { width: v, ..acc.0 }
                } else {
                    Rect { height: v, ..acc.0 }
                };
                Some(((r0, acc.1 | bit), e))
            },
            None => None,
        }
    } else {
        match skip_value(s, v0) {
            Some(e) => if e <= v0 {
                None
            } else {
                Some((acc, e))
            },
            None => None,
        }
    }
}

#[verifier::loop_isolation(false)]
fn parse_rect_members(s: &Vec<u8>, i: usize, acc: (Rect, u8)) -> (r: Option<((Rect, u8), usize)>)
    requires
        i <= s@.len(),
    ensures
        match r {
            Some((a2, e)) => i <= e <= s@.len() && spec_rect_members(s@, i as int, acc, true)
                == Some((a2, e as int)),
            None => spec_rect_members(s@, i as int, acc, true) is None,
        },
{
    let mut pos: usize = i;
    let mut a = acc;
    let mut first: bool = true;
    loop
        invariant
            i <= pos <= s@.len(),
            spec_rect_members(s@, i as int, acc, true) == spec_rect_members(
                s@,
                pos as int,
                a,
                first,
            ),
        decreases s@.len() - pos,
    {
        let j = skip_ws(s, pos);
        if j >= s.len() {
            return None;
        }
        if s[j] == 0x7d {
            return Some((a, j + 1));
        }
        let p: usize = if first {
            j
        } else {
            if s[j] != 0x2c {
                return None;
            }
            skip_ws(s, j + 1)
        };
        match parse_rect_member(s, p, a) {
            Some((a2, e)) => {
                proof {
                    assert(spec_rect_members(s@, pos as int, a, first) == spec_rect_members(
                        s@,
                        e as int,
                        a2,
                        false,
                    ));
                }
                a = a2;
                pos = e;
                first = false;
            },
            None => {
                return None;
            },
        }
    }
}

fn parse_rect(s: &Vec<u8>, i: usize) -> (r: Option<(Rect, usize)>)
    requires
        i <= s@.len(),
    ensures
        match r {
            Some((v, e)) => i <= e <= s@.len() && spec_parse_rect(s@, i as int) == Some(
                (v, e as int),
            ),
            None => spec_parse_rect(s@, i as int) is None,
        },
{
    if i < s.len() && s[i] == 0x7b {
        match parse_rect_members(s, i + 1, (Rect { x: 0, y: 0, width: 0, height: 0 }, 0)) {
            Some(((r0, m), e)) => if m == 15 {
                Some((r0, e))
            } else {
                None
            },
            None => None,
        }
    } else {
        None
    }
}

/// The empty workspace record that member parsing starts from.
pub open spec fn spec_ws_default() -> WorkspaceV {
    WorkspaceV {
        id: 0,
        name: Seq::empty(),
        rect: Rect { x: 0, y: 0, width: 0, height: 0 },
        layout: Seq::empty(),
        urgent: false,
        fullscreen_mode: 0,
        output: Seq::empty(),
        focused: false,
        visible: false,
    }
}

/// One `"key": value` member of a workspace object, applied to the
/// partial record and its seen-member mask. Every known member must
/// carry its declared type (integers anywhere in 64-bit range) and may
/// appear only once; unknown members are skipped.
pub open spec fn spec_ws_member(s: Seq<u8>, p: int, acc: WorkspaceV, mask: u16) -> Option<
    ((WorkspaceV, u16), int),
> {
    match spec_parse_string(s, p) {
        Some((key, k)) => if k <= p + 1 || k > s.len() {
            None
        } else {
            let c = spec_skip_ws(s, k);
            if c < k || c >= s.len() || s[c] != 0x3a {
                None
            } else {
                let v0 = spec_skip_ws(s, c + 1);
                if v0 < c + 1 || v0 > s.len() {
                    None
                } else {
                    let kind = spec_key_kind(key);
                    if kind == KeyKind::Id {
                        if mask & 1 != 0 {
                            None
                        } else {
                            match spec_parse_int(s, v0) {
                                Some((v, e)) => Some(((WorkspaceV { id: v, ..acc }, mask | 1), e)),
                                None => None,
                            }
                        }
                    } else if kind == KeyKind::Name {
                        if mask & 2 != 0 {
                            None
                        } else {
                            match spec_parse_string(s, v0) {
                                Some((t, e)) => Some(
                                    ((WorkspaceV { name: t, ..acc }, mask | 2), e),
                                ),
                                None => None,
                            }
                        }
                    } else if kind == KeyKind::RectK {
                        if mask & 4 != 0 {
                            None
                        } else {
                            match spec_parse_rect(s, v0) {
                                Some((v, e)) => Some(
                                    ((WorkspaceV { rect: v, ..acc }, mask | 4), e),
                                ),
                                None => None,
                            }
                        }
                    } else if kind == KeyKind::Layout {
                        if mask & 8 != 0 {
                            None
                        } else {
                            match spec_parse_string(s, v0) {
                                Some((t, e)) => Some(
                                    ((WorkspaceV { layout: t, ..acc }, mask | 8), e),
                                ),
                                None => None,
                            }
                        }
                    } else if kind == KeyKind::Urgent {
                        if mask & 16 != 0 {
                            None
                        } else {
                            match spec_parse_bool(s, v0) {
                                Some((v, e)) => Some(
                                    ((WorkspaceV { urgent: v, ..acc }, mask | 16), e),
                                ),
                                None => None,
                            }
                        }
                    } else if kind == KeyKind::FullscreenMode {
                        if mask & 32 != 0 {
                            None
                        } else {
                            match spec_parse_int(s, v0) {
                                Some((v, e)) => Some(
                                    ((WorkspaceV { fullscreen_mode: v, ..acc }, mask | 32), e),
                                ),
                                None => None,
                            }
                        }
                    } else if kind == KeyKind::Output {
                        if mask & 64 != 0 {
                            None
                        } else {
                            match spec_parse_string(s, v0) {
                                Some((t, e)) => Some(
                                    ((WorkspaceV { output: t, ..acc }, mask | 64), e),
                                ),
                                None => None,
                            }
                        }
                    } else if kind == KeyKind::Focused {
                        if mask & 128 != 0 {
                            None
                        } else {
                            match spec_parse_bool(s, v0) {
                                Some((v, e)) => Some(
                                    ((WorkspaceV { focused: v, ..acc }, mask | 128), e),
                                ),
                                None => None,
                            }
                        }
                    } else if kind == KeyKind::Visible {
                        if mask & 256 != 0 {
                            None
                        } else {
                            match spec_parse_bool(s, v0) {
                                Some((v, e)) => Some(
                                    ((WorkspaceV { visible: v, ..acc }, mask | 256), e),
                                ),
                                None => None,
                            }
                        }
                    } else {
                        match spec_skip_value(s, v0) {
                            Some(e) => if e <= v0 || e > s.len() {
                                None
                            } else {
                                Some(((acc, mask), e))
                            },
                            None => None,
                        }
                    }
                }
            }
        },
        None => None,
    }
}

/// The members of a workspace object from `i` up to its closing `}`.
pub open spec fn spec_ws_members(s: Seq<u8>, i: int, acc: WorkspaceV, mask: u16, first: bool) -> Option<
    ((WorkspaceV, u16), int),
>
    decreases s.len() - i,
{
    let j = spec_skip_ws(s, i);
    if j < i || j >= s.len() {
        None
    } else if s[j] == 0x7d {
        Some(((acc, mask), j + 1))
    } else if first {
        match spec_ws_member(s, j, acc, mask) {
            Some(((a2, m2), e)) => if e <= j || e > s.len() {
                None
            } else {
                spec_ws_members(s, e, a2, m2, false)
            },
            None => None,
        }
    } else if s[j] == 0x2c {
        let m = spec_skip_ws(s, j + 1);
        if m < j + 1 || m > s.len() {
            None
        } else {
            match spec_ws_member(s, m, acc, mask) {
                Some(((a2, m2), e)) => if e <= m || e > s.len() {
                    None
                } else {
                    spec_ws_members(s, e, a2, m2, false)
                },
                None => None,
            }
        }
    } else {
        None
    }
}

/// The workspace object at `i`: all nine declared members present
/// exactly once, each with its declared type.
pub open spec fn spec_parse_workspace(s: Seq<u8>, i: int) -> Option<(WorkspaceV, int)> {
    if 0 <= i < s.len() && s[i] == 0x7b {
        match spec_ws_members(s, i + 1, spec_ws_default(), 0u16, true) {
            Some(((w, m), e)) => if m == 511 {
                Some((w, e))
            } else {
                None
            },
            None => None,
        }
    } else {
        None
    }
}

#[verifier::rlimit(100)]
fn parse_ws_member(s: &Vec<u8>, p: usize, acc: Workspace, mask: u16) -> (r: Option<
    ((Workspace, u16), usize),
>)
    requires
        p <= s@.len(),
    ensures
        match r {
            Some(((a2, m2), e)) => p < e <= s@.len() && spec_ws_member(s@, p as int, acc@, mask)
                == Some(((a2@, m2), e as int)),
            None => spec_ws_member(s@, p as int, acc@, mask) is None,
        },
{
    let (key, k) = match parse_string(s, p) {
        Some(x) => x,
        None => {
            return None;
        },
    };
    let c = skip_ws(s, k);
    if c >= s.len() || s[c] != 0x3a {
        return None;
    }
    let v0 = skip_ws(s, c + 1);
    let kind = classify_key(&key);
    let mut w = acc;
    if kind == KeyKind::Id {
        if mask & 1 != 0 {
            return None;
        }
        match parse_int(s, v0) {
            Some((v, e)) => {
                w.id = v;
                Some(((w, mask | 1), e))
            },
            None => None,
        }
    } else if kind == KeyKind::Name {
        if mask & 2 != 0 {
            return None;
        }
        match parse_string(s, v0) {
            Some((t, e)) => {
                w.name = t;
                Some(((w, mask | 2), e))
            },
            None => None,
        }
    } else if kind == KeyKind::RectK {
        if mask & 4 != 0 {
            return None;
        }
        match parse_rect(s, v0) {
            Some((v, e)) => {
                w.rect = v;
                Some(((w, mask | 4), e))
            },
            None => None,
        }
    } else if kind == KeyKind::Layout {
        if mask & 8 != 0 {
            return None;
        }
        match parse_string(s, v0) {
            Some((t, e)) => {
                w.layout = t;
                Some(((w, mask | 8), e))
            },
            None => None,
        }
    } else if kind == KeyKind::Urgent {
        if mask & 16 != 0 {
            return None;
        }
        match parse_bool(s, v0) {
            Some((v, e)) => {
                w.urgent = v;
                Some(((w, mask | 16), e))
            },
            None => None,
        }
    } else if kind == KeyKind::FullscreenMode {
        if mask & 32 != 0 {
            return None;
        }
        match parse_int(s, v0) {
            Some((v, e)) => {
                w.fullscreen_mode = v;
                Some(((w, mask | 32), e))
            },
            None => None,
        }
    } else if kind == KeyKind::Output {
        if mask & 64 != 0 {
            return None;
        }
        match parse_string(s, v0) {
            Some((t, e)) => {
                w.output = t;
                Some(((w, mask | 64), e))
            },
            None => None,
        }
    } else if kind == KeyKind::Focused {
        if mask & 128 != 0 {
            return None;
        }
        match parse_bool(s, v0) {
            Some((v, e)) => {
                w.focused = v;
                Some(((w, mask | 128), e))
            },
            None => None,
        }
    } else if kind == KeyKind::Visible {
        if mask & 256 != 0 {
            return None;
        }
        match parse_bool(s, v0) {
            Some((v, e)) => {
                w.visible = v;
                Some(((w, mask | 256), e))
            },
            None => None,
        }
    } else {
        match skip_value(s, v0) {
            Some(e) => if e <= v0 {
                None
            } else {
                Some(((w, mask), e))
            },
            None => None,
        }
    }
}

#[verifier::loop_isolation(false)]
fn parse_ws_members(s: &Vec<u8>, i: usize, acc: Workspace, mask: u16) -> (r: Option<
    ((Workspace, u16), usize),
>)
    requires
        i <= s@.len(),
    ensures
        match r {
            Some(((a2, m2), e)) => i <= e <= s@.len() && spec_ws_members(
                s@,
                i as int,
                acc@,
                mask,
                true,
            ) == Some(((a2@, m2), e as int)),
            None => spec_ws_members(s@, i as int, acc@, mask, true) is None,
        },
{
    let ghost acc0 = acc@;
    let mut pos: usize = i;
    let mut a = acc;
    let mut m: u16 = mask;
    let mut first: bool = true;
    loop
        invariant
            i <= pos <= s@.len(),
            spec_ws_members(s@, i as int, acc0, mask, true) == spec_ws_members(
                s@,
                pos as int,
                a@,
                m,
                first,
            ),
        decreases s@.len() - pos,
    {
        let j = skip_ws(s, pos);
        if j >= s.len() {
            return None;
        }
        if s[j] == 0x7d {
            return Some(((a, m), j + 1));
        }
        let p: usize = if first {
            j
        } else {
            if s[j] != 0x2c {
                return None;
            }
            skip_ws(s, j + 1)
        };
        let ghost av = a@;
        match parse_ws_member(s, p, a, m) {
            Some(((a2, m2), e)) => {
                proof {
                    assert(spec_ws_members(s@, pos as int, av, m, first) == spec_ws_members(
                        s@,
                        e as int,
                        a2@,
                        m2,
                        false,
                    ));
                }
                a = a2;
                m = m2;
                pos = e;
                first = false;
            },
            None => {
                return None;
            },
        }
    }
}

fn parse_workspace(s: &Vec<u8>, i: usize) -> (r: Option<(Workspace, usize)>)
    requires
        i <= s@.len(),
    ensures
        match r {
            Some((w, e)) => i <= e <= s@.len() && spec_parse_workspace(s@, i as int) == Some(
                (w@, e as int),
            ),
            None => spec_parse_workspace(s@, i as int) is None,
        },
{
    if i < s.len() && s[i] == 0x7b {
        let w0 = Workspace {
            id: 0,
            name: Vec::new(),
            rect: Rect { x: 0, y: 0, width: 0, height: 0 },
            layout: Vec::new(),
            urgent: false,
            fullscreen_mode: 0,
            output: Vec::new(),
            focused: false,
            visible: false,
        };
        proof {
            assert(w0@ == spec_ws_default());
        }
        match parse_ws_members(s, i + 1, w0, 0) {
            Some(((w, m), e)) => if m == 511 {
                Some((w, e))
            } else {
                None
            },
            None => None,
        }
    } else {
        None
    }
}

/// The elements of the workspace array from `i` up to its closing `]`.
pub open spec fn spec_ws_elems(s: Seq<u8>, i: int, acc: Seq<WorkspaceV>, first: bool) -> Option<
    (Seq<WorkspaceV>, int),
>
    decreases s.len() - i,
{
    let j = spec_skip_ws(s, i);
    if j < i || j >= s.len() {
        None
    } else if s[j] == 0x5d {
        Some((acc, j + 1))
    } else if first {
        match spec_parse_workspace(s, j) {
            Some((w, e)) => if e <= j || e > s.len() {
                None
            } else {
                spec_ws_elems(s, e, acc.push(w), false)
            },
            None => None,
        }
    } else if s[j] == 0x2c {
        let m = spec_skip_ws(s, j + 1);
        if m < j + 1 || m > s.len() {
            None
        } else {
            match spec_parse_workspace(s, m) {
                Some((w, e)) => if e <= m || e > s.len() {
                    None
                } else {
                    spec_ws_elems(s, e, acc.push(w), false)
                },
                None => None,
            }
        }
    } else {
        None
    }
}

/// The whole query payload: optional whitespace, one array of workspace
/// objects, optional whitespace, end of input.
pub open spec fn spec_parse_top(s: Seq<u8>) -> Option<Seq<WorkspaceV>> {
    let j = spec_skip_ws(s, 0);
    if !(0 <= j < s.len() && s[j] == 0x5b) {
        None
    } else {
        match spec_ws_elems(s, j + 1, Seq::empty(), true) {
            Some((ws, e)) => if 0 <= e <= s.len() && spec_skip_ws(s, e) == s.len() {
                Some(ws)
            } else {
                None
            },
            None => None,
        }
    }
}

/// What the decoder yields for a payload: the decoded records of a
/// well-formed payload, and nothing at all for a malformed one.
pub open spec fn spec_decode(s: Seq<u8>) -> Seq<WorkspaceV> {
    match spec_parse_top(s) {
        Some(ws) => ws,
        None => Seq::empty(),
    }
}

#[verifier::loop_isolation(false)]
fn parse_ws_elems(s: &Vec<u8>, i: usize) -> (r: Option<(Vec<Workspace>, usize)>)
    requires
        i <= s@.len(),
    ensures
        match r {
            Some((ws, e)) => i <= e <= s@.len() && spec_ws_elems(s@, i as int, Seq::empty(), true)
                == Some((ws@.map_values(|w: Workspace| w@), e as int)),
            None => spec_ws_elems(s@, i as int, Seq::empty(), true) is None,
        },
{
    let mut pos: usize = i;
    let mut acc: Vec<Workspace> = Vec::new();
    let mut first: bool = true;
    proof {
        assert(acc@.map_values(|w: Workspace| w@) =~= Seq::<WorkspaceV>::empty());
    }
    loop
        invariant
            i <= pos <= s@.len(),
            spec_ws_elems(s@, i as int, Seq::empty(), true) == spec_ws_elems(
                s@,
                pos as int,
                acc@.map_values(|w: Workspace| w@),
                first,
            ),
        decreases s@.len() - pos,
    {
        let j = skip_ws(s, pos);
        if j >= s.len() {
            return None;
        }
        if s[j] == 0x5d {
            return Some((acc, j + 1));
        }
        let p: usize = if first {
            j
        } else {
            if s[j] != 0x2c {
                return None;
            }
            skip_ws(s, j + 1)
        };
        match parse_workspace(s, p) {
            Some((w, e)) => {
                if e <= p {
                    return None;
                }
                let ghost old_acc = acc@.map_values(|w2: Workspace| w2@);
                let ghost wv = w@;
                acc.push(w);
                proof {
                    assert(acc@.map_values(|w2: Workspace| w2@) =~= old_acc.push(wv));
                }
                pos = e;
                first = false;
            },
            None => {
                return None;
            },
        }
    }
}

/// Decodes a workspace query payload. A well-formed payload (a JSON
/// array of complete workspace objects) yields its records in order;
/// any other payload yields the empty list.
pub fn decode_workspaces(s: &Vec<u8>) -> (r: Vec<Workspace>)
    ensures
        r@.map_values(|w: Workspace| w@) == spec_decode(s@),
{
    let j = skip_ws(s, 0);
    if !(j < s.len() && s[j] == 0x5b) {
        let r: Vec<Workspace> = Vec::new();
        proof {
            assert(r@.map_values(|w: Workspace| w@) =~= Seq::<WorkspaceV>::empty());
        }
        return r;
    }
    match parse_ws_elems(s, j + 1) {
        Some((ws, e)) => {
            let t = skip_ws(s, e);
            if t == s.len() {
                ws
            } else {
                let r: Vec<Workspace> = Vec::new();
                proof {
                    assert(r@.map_values(|w: Workspace| w@) =~= Seq::<WorkspaceV>::empty());
                }
                r
            }
        },
        None => {
            let r: Vec<Workspace> = Vec::new();
            proof {
                assert(r@.map_values(|w: Workspace| w@) =~= Seq::<WorkspaceV>::empty());
            }
            r
        },
    }
}

/// A malformed payload decodes to no records at all.
pub proof fn lemma_malformed_decodes_empty(s: Seq<u8>)
    requires
        spec_parse_top(s) is None,
    ensures
        spec_decode(s) == Seq::<WorkspaceV>::empty(),
{
}

} // verus!
