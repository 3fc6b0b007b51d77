//! The table file format: a flat JSON object mapping strings to strings.
//!
//! The grammar is given by spec-level recursive parsers over the file's
//! bytes; each executable parser returns exactly what its spec counterpart
//! says. Accepted are optional whitespace, one object of string members, and
//! nothing after it. String literals carry UTF-8 content and the JSON
//! escapes, with `\u` limited to scalars of the basic plane: a surrogate
//! pair is rejected as malformed. Any value that is not a string makes the
//! whole file malformed.

use vstd::prelude::*;
use vstd::utf8::{decode_utf8, valid_utf8};
use crate::request::string_from_utf8;

verus! {

pub const QUOTE: u8 = 0x22;
pub const BACKSLASH: u8 = 0x5C;
pub const LBRACE: u8 = 0x7B;
pub const RBRACE: u8 = 0x7D;
pub const COMMA: u8 = 0x2C;
pub const COLON: u8 = 0x3A;
pub const LOWER_U: u8 = 0x75;

/// JSON insignificant whitespace: space, tab, line feed, carriage return.
pub open spec fn spec_is_ws(b: u8) -> bool {
    b == 0x20 || b == 0x09 || b == 0x0A || b == 0x0D
}

/// The index of the first non-whitespace byte at or after `i`.
pub open spec fn spec_skip_ws(s: Seq<u8>, i: int) -> int
    decreases s.len() - i,
{
    if 0 <= i < s.len() && spec_is_ws(s[i]) {
        spec_skip_ws(s, i + 1)
    } else {
        i
    }
}

/// The value of one hex digit, if the byte is one.
pub open spec fn spec_hex_val(b: u8) -> Option<u32> {
    if 0x30 <= b <= 0x39 {
        Some((b - 0x30) as u32)
    } else if 0x61 <= b <= 0x66 {
        Some((b - 0x61 + 10) as u32)
    } else if 0x41 <= b <= 0x46 {
        Some((b - 0x41 + 10) as u32)
    } else {
        None
    }
}

/// What a short escape after a backslash stands for.
pub open spec fn spec_escape_byte(e: u8) -> Option<u8> {
    if e == QUOTE {
        Some(QUOTE)
    } else if e == BACKSLASH {
        Some(BACKSLASH)
    } else if e == 0x2F {
        Some(0x2F)
    } else if e == 0x62 {
        Some(0x08)
    } else if e == 0x66 {
        Some(0x0C)
    } else if e == 0x6E {
        Some(0x0A)
    } else if e == 0x72 {
        Some(0x0D)
    } else if e == 0x74 {
        Some(0x09)
    } else {
        None
    }
}

/// The UTF-8 bytes of one scalar of the basic plane.
pub open spec fn spec_utf8_enc(v: int) -> Seq<u8> {
    if v < 0x80 {
        seq![v as u8]
    } else if v < 0x800 {
        seq![(0xC0 + v / 0x40) as u8, (0x80 + v % 0x40) as u8]
    } else {
        seq![
            (0xE0 + v / 0x1000) as u8,
            (0x80 + (v / 0x40) % 0x40) as u8,
            (0x80 + v % 0x40) as u8,
        ]
    }
}

/// Parses the inside of a string literal starting at `i` (just after the
/// opening quote): the unescaped content bytes and the index just past the
/// closing quote. Fails on an unterminated literal, a raw control byte, an
/// unknown escape, or a `\u` escape naming a surrogate.
pub open spec fn spec_parse_string_body(s: Seq<u8>, i: int) -> Option<(Seq<u8>, int)>
    decreases s.len() - i,
{
    if i < 0 || i >= s.len() {
        None
    } else if s[i] == QUOTE {
        Some((Seq::empty(), i + 1))
    } else if s[i] == BACKSLASH {
        if i + 1 >= s.len() {
            None
        } else if s[i + 1] == LOWER_U {
            if i + 6 > s.len() {
                None
            } else {
                match (spec_hex_val(s[i + 2]), spec_hex_val(s[i + 3]), spec_hex_val(s[i + 4]),
                spec_hex_val(s[i + 5])) {
                    (Some(h0), Some(h1), Some(h2), Some(h3)) => {
                        let v = h0 * 0x1000 + h1 * 0x100 + h2 * 0x10 + h3;
                        if 0xD800 <= v < 0xE000 {
                            None
                        } else {
                            match spec_parse_string_body(s, i + 6) {
                                Some((rest, j)) => Some((spec_utf8_enc(v as int) + rest, j)),
                                None => None,
                            }
                        }
                    },
                    _ => None,
                }
            }
        } else {
            match spec_escape_byte(s[i + 1]) {
                Some(m) => match spec_parse_string_body(s, i + 2) {
                    Some((rest, j)) => Some((seq![m] + rest, j)),
                    None => None,
                },
                None => None,
            }
        }
    } else if s[i] < 0x20 {
        None
    } else {
        match spec_parse_string_body(s, i + 1) {
            Some((rest, j)) => Some((seq![s[i]] + rest, j)),
            None => None,
        }
    }
}

/// Parses one string literal starting at `i`: its characters and the index
/// just past the closing quote. The content bytes must be valid UTF-8.
pub open spec fn spec_parse_string(s: Seq<u8>, i: int) -> Option<(Seq<char>, int)> {
    if 0 <= i < s.len() && s[i] == QUOTE {
        match spec_parse_string_body(s, i + 1) {
            Some((bytes, j)) => if valid_utf8(bytes) {
                Some((decode_utf8(bytes), j))
            } else {
                None
            },
            None => None,
        }
    } else {
        None
    }
}

/// Parses the members of a non-empty object, `i` standing on the first key's
/// opening quote: the key/value pairs in file order and the index just past
/// the closing brace.
pub open spec fn spec_parse_members(s: Seq<u8>, i: int) -> Option<
    (Seq<(Seq<char>, Seq<char>)>, int),
>
    decreases s.len() - i,
{
    match spec_parse_string(s, i) {
        None => None,
        Some((k, j1)) => {
            let j2 = spec_skip_ws(s, j1);
            if !(0 <= j2 < s.len() && s[j2] == COLON) {
                None
            } else {
                let j3 = spec_skip_ws(s, j2 + 1);
                match spec_parse_string(s, j3) {
                    None => None,
                    Some((v, j4)) => {
                        let j5 = spec_skip_ws(s, j4);
                        if !(0 <= j5 < s.len()) {
                            None
                        } else if s[j5] == RBRACE {
                            Some((seq![(k, v)], j5 + 1))
                        } else if s[j5] == COMMA {
                            let j6 = spec_skip_ws(s, j5 + 1);
                            if i < j6 <= s.len() {
                                match spec_parse_members(s, j6) {
                                    Some((rest, j7)) => Some((seq![(k, v)] + rest, j7)),
                                    None => None,
                                }
                            } else {
                                None
                            }
                        } else {
                            None
                        }
                    },
                }
            }
        },
    }
}

/// Parses a whole table file: the key/value pairs in file order, or nothing
/// if the bytes are not exactly one flat string-to-string object.
pub open spec fn spec_parse_table(s: Seq<u8>) -> Option<Seq<(Seq<char>, Seq<char>)>> {
    let i0 = spec_skip_ws(s, 0);
    if !(0 <= i0 < s.len() && s[i0] == LBRACE) {
        None
    } else {
        let i1 = spec_skip_ws(s, i0 + 1);
        if !(0 <= i1 < s.len()) {
            None
        } else if s[i1] == RBRACE {
            if spec_skip_ws(s, i1 + 1) == s.len() {
                Some(Seq::empty())
            } else {
                None
            }
        } else {
            match spec_parse_members(s, i1) {
                Some((ps, j)) => if spec_skip_ws(s, j) == s.len() {
                    Some(ps)
                } else {
                    None
                },
                None => None,
            }
        }
    }
}

/// The views of a sequence of owned string pairs.
pub open spec fn pairs_view(ps: Seq<(String, String)>) -> Seq<(Seq<char>, Seq<char>)> {
    ps.map_values(|p: (String, String)| (p.0@, p.1@))
}

/// The index of the first non-whitespace byte at or after `i`.
pub(crate) fn skip_ws(s: &Vec<u8>, i: usize) -> (r: usize)
    ensures
        r as int == spec_skip_ws(s@, i as int),
        i <= r,
        r <= s@.len() || r == i,
{
    let n = s.len();
    let mut j = i;
    while j < n && (s[j] == 0x20 || s[j] == 0x09 || s[j] == 0x0A || s[j] == 0x0D)
        invariant
            i <= j,
            j <= n || j == i,
            n == s@.len(),
            spec_skip_ws(s@, i as int) == spec_skip_ws(s@, j as int),
        decreases n - j,
    {
        j = j + 1;
    }
    j
}

/// The value of one hex digit, if the byte is one.
pub(crate) fn hex_val(b: u8) -> (r: Option<u32>)
    ensures
        r == spec_hex_val(b),
        r matches Some(h) ==> h < 16,
{
    if 0x30 <= b && b <= 0x39 {
        Some((b - 0x30) as u32)
    } else if 0x61 <= b && b <= 0x66 {
        Some((b - 0x61) as u32 + 10)
    } else if 0x41 <= b && b <= 0x46 {
        Some((b - 0x41) as u32 + 10)
    } else {
        None
    }
}

/// The UTF-8 bytes of one scalar of the basic plane.
pub(crate) fn utf8_enc(v: u32) -> (r: Vec<u8>)
    requires
        v < 0x10000,
    ensures
        r@ == spec_utf8_enc(v as int),
{
    let mut out: Vec<u8> = Vec::new();
    if v < 0x80 {
        out.push(v as u8);
    } else if v < 0x800 {
        assert(v / 0x40 < 0x20);
        out.push((0xC0 + v / 0x40) as u8);
        out.push((0x80 + v % 0x40) as u8);
    } else {
        assert(v / 0x1000 < 0x10);
        assert((v / 0x40) % 0x40 < 0x40);
        out.push((0xE0 + v / 0x1000) as u8);
        out.push((0x80 + (v / 0x40) % 0x40) as u8);
        out.push((0x80 + v % 0x40) as u8);
    }
    assert(out@ =~= spec_utf8_enc(v as int));
    out
}

/// Parses the inside of a string literal starting just after the opening
/// quote, returning the unescaped content bytes and the index just past the
/// closing quote.
pub(crate) fn parse_string_body(s: &Vec<u8>, i: usize) -> (r: Option<(Vec<u8>, usize)>)
    ensures
        r is Some <==> spec_parse_string_body(s@, i as int) is Some,
        r matches Some(p) ==> spec_parse_string_body(s@, i as int) == Some((p.0@, p.1 as int))
            && i < p.1 <= s@.len(),
    decreases s@.len() - i,
{
    let n = s.len();
    if i >= n {
        return None;
    }
    let b = s[i];
    if b == QUOTE {
        return Some((Vec::new(), i + 1));
    }
    if b == BACKSLASH {
        if n - i < 2 {
            return None;
        }
        let e = s[i + 1];
        if e == LOWER_U {
            if n - i < 6 {
                return None;
            }
            match (hex_val(s[i + 2]), hex_val(s[i + 3]), hex_val(s[i + 4]), hex_val(s[i + 5])) {
                (Some(h0), Some(h1), Some(h2), Some(h3)) => {
                    let v: u32 = h0 * 0x1000 + h1 * 0x100 + h2 * 0x10 + h3;
                    if 0xD800 <= v && v < 0xE000 {
                        return None;
                    }
                    match parse_string_body(s, i + 6) {
                        Some((rest, j)) => {
                            let mut out = utf8_enc(v);
                            let mut rest = rest;
                            let ghost rest_view = rest@;
                            out.append(&mut rest);
                            assert(out@ =~= spec_utf8_enc(v as int) + rest_view);
                            Some((out, j))
                        },
                        None => None,
                    }
                },
                _ => None,
            }
        } else {
            let m = match e {
                QUOTE => Some(QUOTE),
                BACKSLASH => Some(BACKSLASH),
                0x2F => Some(0x2F),
                0x62 => Some(0x08u8),
                0x66 => Some(0x0Cu8),
                0x6E => Some(0x0Au8),
                0x72 => Some(0x0Du8),
                0x74 => Some(0x09u8),
                _ => None,
            };
            assert(m == spec_escape_byte(e));
            match m {
                Some(m) => match parse_string_body(s, i + 2) {
                    Some((rest, j)) => {
                        let mut out: Vec<u8> = Vec::new();
                        out.push(m);
                        let mut rest = rest;
                        let ghost rest_view = rest@;
                        out.append(&mut rest);
                        assert(out@ =~= seq![m] + rest_view);
                        Some((out, j))
                    },
                    None => None,
                },
                None => None,
            }
        }
    } else if b < 0x20 {
        None
    } else {
        match parse_string_body(s, i + 1) {
            Some((rest, j)) => {
                let mut out: Vec<u8> = Vec::new();
                out.push(b);
                let mut rest = rest;
                let ghost rest_view = rest@;
                out.append(&mut rest);
                assert(out@ =~= seq![b] + rest_view);
                Some((out, j))
            },
            None => None,
        }
    }
}

/// Parses one string literal starting at `i`.
pub(crate) fn parse_string(s: &Vec<u8>, i: usize) -> (r: Option<(String, usize)>)
    ensures
        r is Some <==> spec_parse_string(s@, i as int) is Some,
        r matches Some(p) ==> spec_parse_string(s@, i as int) == Some((p.0@, p.1 as int)) && i
            < p.1 <= s@.len(),
{
    let n = s.len();
    if !(i < n && s[i] == QUOTE) {
        return None;
    }
    match parse_string_body(s, i + 1) {
        Some((bytes, j)) => match string_from_utf8(bytes) {
            Some(st) => Some((st, j)),
            None => None,
        },
        None => None,
    }
}

/// Parses the members of a non-empty object, `i` standing on the first key's
/// opening quote.
pub(crate) fn parse_members(s: &Vec<u8>, i: usize) -> (r: Option<(Vec<(String, String)>, usize)>)
    ensures
        r is Some <==> spec_parse_members(s@, i as int) is Some,
        r matches Some(p) ==> spec_parse_members(s@, i as int) == Some(
            (pairs_view(p.0@), p.1 as int),
        ) && i < p.1 <= s@.len(),
    decreases s@.len() - i,
{
    let n = s.len();
    let (k, j1) = match parse_string(s, i) {
        Some(p) => p,
        None => {
            return None;
        },
    };
    let j2 = skip_ws(s, j1);
    if !(j2 < n && s[j2] == COLON) {
        return None;
    }
    let j3 = skip_ws(s, j2 + 1);
    let (v, j4) = match parse_string(s, j3) {
        Some(p) => p,
        None => {
            return None;
        },
    };
    let j5 = skip_ws(s, j4);
    if !(j5 < n) {
        return None;
    }
    if s[j5] == RBRACE {
        let mut out: Vec<(String, String)> = Vec::new();
        out.push((k, v));
        assert(pairs_view(out@) =~= seq![(k@, v@)]);
        Some((out, j5 + 1))
    } else if s[j5] == COMMA {
        let j6 = skip_ws(s, j5 + 1);
        if !(i < j6 && j6 <= n) {
            return None;
        }
        match parse_members(s, j6) {
            Some((rest, j7)) => {
                let mut out: Vec<(String, String)> = Vec::new();
                out.push((k, v));
                let mut rest = rest;
                let ghost rest_view = rest@;
                out.append(&mut rest);
                assert(pairs_view(out@) =~= seq![(k@, v@)] + pairs_view(rest_view));
                Some((out, j7))
            },
            None => None,
        }
    } else {
        None
    }
}

/// Parses a whole table file into its key/value pairs in file order, or
/// nothing if the bytes are not exactly one flat string-to-string object.
pub fn parse_table(s: &Vec<u8>) -> (r: Option<Vec<(String, String)>>)
    ensures
        r is Some <==> spec_parse_table(s@) is Some,
        r matches Some(ps) ==> spec_parse_table(s@) == Some(pairs_view(ps@)),
{
    let n = s.len();
    let i0 = skip_ws(s, 0);
    if !(i0 < n && s[i0] == LBRACE) {
        return None;
    }
    let i1 = skip_ws(s, i0 + 1);
    if !(i1 < n) {
        return None;
    }
    if s[i1] == RBRACE {
        if skip_ws(s, i1 + 1) == n {
            let out: Vec<(String, String)> = Vec::new();
            assert(pairs_view(out@) =~= Seq::<(Seq<char>, Seq<char>)>::empty());
            Some(out)
        } else {
            None
        }
    } else {
        match parse_members(s, i1) {
            Some((ps, j)) => {
                if skip_ws(s, j) == n {
                    Some(ps)
                } else {
                    None
                }
            },
            None => None,
        }
    }
}

/// The serialized form of the empty table: the empty object, which the store
/// writes when it initializes a missing or unreadable table file.
pub fn empty_table_json() -> (r: Vec<u8>)
    ensures
        r@ == seq![LBRACE, RBRACE],
{
    let mut out: Vec<u8> = Vec::new();
    out.push(LBRACE);
    out.push(RBRACE);
    assert(out@ =~= seq![LBRACE, RBRACE]);
    out
}

/// The empty object parses back to the empty table: what initialization
/// writes is a valid table file.
pub proof fn lemma_empty_table_parses()
    ensures
        spec_parse_table(seq![LBRACE, RBRACE]) == Some(Seq::<(Seq<char>, Seq<char>)>::empty()),
{
    let s = seq![LBRACE, RBRACE];
    assert(!spec_is_ws(s[0]));
    assert(!spec_is_ws(s[1]));
    assert(spec_skip_ws(s, 0) == 0);
    assert(spec_skip_ws(s, 1) == 1);
    assert(spec_skip_ws(s, 2) == 2);
}

} // verus!
