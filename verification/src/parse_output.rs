//! Incremental parser for the judge-output protocol.
//!
//! The judge program writes newline-delimited records to its standard output.
//! Each non-empty line is parsed as either a test-case record, a final-verdict
//! record, or — when it is neither — degraded to an informational "Judge Debug
//! Message" test case carrying the raw line, so a misbehaving judge never
//! crashes a request.
//!
//! The line grammar accepted here is a small JSON subset, stated exactly by
//! the `spec` functions in this module: objects with string keys, string
//! values, the boolean literals, and the fixed shapes of the two record kinds.
//! Keys may come in any order; a duplicated or unknown key makes the line
//! invalid, as does any content after the closing brace. String escapes are
//! `\"`, `\\`, `\/`, `\n`, `\t`, `\r`, `\b`, `\f` and `\uXXXX` (with a
//! surrogate pair standing for one character beyond the basic plane); all
//! other bytes of a string except control characters are taken verbatim, so
//! UTF-8 text passes through unchanged.

use vstd::prelude::*;

use crate::judge::TestPassState;

verus! {

// ---------------------------------------------------------------------------
// Whitespace
// ---------------------------------------------------------------------------

/// Whitespace that may surround tokens inside one line: space, tab and
/// carriage return. (A line feed always terminates the line before parsing.)
pub open spec fn spec_is_ws(b: u8) -> bool {
    b == (' ' as u8) || b == ('\t' as u8) || b == ('\r' as u8)
}

/// First index at or after `i` that does not hold whitespace.
pub open spec fn spec_skip_ws(s: Seq<u8>, i: int) -> int
    decreases s.len() - i,
{
    if 0 <= i < s.len() && spec_is_ws(s[i]) {
        spec_skip_ws(s, i + 1)
    } else {
        i
    }
}

pub proof fn lemma_skip_ws_bounds(s: Seq<u8>, i: int)
    requires
        0 <= i <= s.len(),
    ensures
        i <= spec_skip_ws(s, i) <= s.len(),
    decreases s.len() - i,
{
    if i < s.len() && spec_is_ws(s[i]) {
        lemma_skip_ws_bounds(s, i + 1);
    }
}

fn skip_ws(s: &[u8], start: usize) -> (r: usize)
    requires
        start <= s@.len(),
    ensures
        r == spec_skip_ws(s@, start as int),
        start <= r <= s@.len(),
{
    let mut i = start;
    while i < s.len() && (s[i] == (' ' as u8) || s[i] == ('\t' as u8) || s[i] == ('\r' as u8))
        invariant
            start <= i <= s@.len(),
            spec_skip_ws(s@, start as int) == spec_skip_ws(s@, i as int),
        decreases s@.len() - i,
    {
        i = i + 1;
    }
    i
}

// ---------------------------------------------------------------------------
// String tokens
// ---------------------------------------------------------------------------

/// The byte an escape character after a backslash stands for, if the escape
/// is accepted.
pub open spec fn spec_unescape(b: u8) -> Option<u8> {
    if b == ('"' as u8) {
        Some(('"' as u8))
    } else if b == ('\\' as u8) {
        Some(('\\' as u8))
    } else if b == ('/' as u8) {
        Some(('/' as u8))
    } else if b == ('n' as u8) {
        Some(('\n' as u8))
    } else if b == ('t' as u8) {
        Some(('\t' as u8))
    } else if b == ('r' as u8) {
        Some(('\r' as u8))
    } else if b == ('b' as u8) {
        Some(8u8)
    } else if b == ('f' as u8) {
        Some(12u8)
    } else {
        None
    }
}

/// The value of one hex digit, if the byte is one.
pub open spec fn spec_hex_val(b: u8) -> Option<u8> {
    if ('0' as u8) <= b && b <= ('9' as u8) {
        Some((b - ('0' as u8)) as u8)
    } else if ('a' as u8) <= b && b <= ('f' as u8) {
        Some((b - ('a' as u8) + 10) as u8)
    } else if ('A' as u8) <= b && b <= ('F' as u8) {
        Some((b - ('A' as u8) + 10) as u8)
    } else {
        None
    }
}

/// The value of the four hex digits at `i`, if they are there.
pub open spec fn spec_hex4(s: Seq<u8>, i: int) -> Option<u32> {
    if 0 <= i && i + 4 <= s.len() {
        match (spec_hex_val(s[i]), spec_hex_val(s[i + 1]), spec_hex_val(s[i + 2]), spec_hex_val(
            s[i + 3],
        )) {
            (Some(a), Some(b), Some(c), Some(d)) => Some(
                ((a as int) * 4096 + (b as int) * 256 + (c as int) * 16 + (d as int)) as u32,
            ),
            _ => None,
        }
    } else {
        None
    }
}

/// A UTF-16 high-surrogate code unit.
pub open spec fn spec_is_high_surrogate(u: u32) -> bool {
    0xD800 <= u && u <= 0xDBFF
}

/// A UTF-16 low-surrogate code unit.
pub open spec fn spec_is_low_surrogate(u: u32) -> bool {
    0xDC00 <= u && u <= 0xDFFF
}

/// The scalar a surrogate pair stands for.
pub open spec fn spec_surrogate_scalar(hi: u32, lo: u32) -> u32 {
    (0x10000 + (hi - 0xD800) * 0x400 + (lo - 0xDC00)) as u32
}

/// The UTF-8 encoding of one scalar value.
pub open spec fn spec_utf8_of(c: u32) -> Seq<u8> {
    if c < 0x80 {
        seq![c as u8]
    } else if c < 0x800 {
        seq![(0xC0 + c / 64) as u8, (0x80 + c % 64) as u8]
    } else if c < 0x10000 {
        seq![(0xE0 + c / 4096) as u8, (0x80 + (c / 64) % 64) as u8, (0x80 + c % 64) as u8]
    } else {
        seq![
            (0xF0 + c / 262144) as u8,
            (0x80 + (c / 4096) % 64) as u8,
            (0x80 + (c / 64) % 64) as u8,
            (0x80 + c % 64) as u8,
        ]
    }
}

/// The content a `\u` escape at `i` contributes (with `i` at the first hex
/// digit), and the index just after it: a scalar's UTF-8 bytes, read from one
/// code unit or from a surrogate pair. A lone surrogate is invalid.
pub open spec fn spec_scan_unicode_escape(s: Seq<u8>, i: int) -> Option<(Seq<u8>, int)> {
    match spec_hex4(s, i) {
        Some(u1) => if spec_is_high_surrogate(u1) {
            if i + 5 < s.len() && s[i + 4] == ('\\' as u8) && s[i + 5] == ('u' as u8) {
                match spec_hex4(s, i + 6) {
                    Some(u2) => if spec_is_low_surrogate(u2) {
                        Some((spec_utf8_of(spec_surrogate_scalar(u1, u2)), i + 10))
                    } else {
                        None
                    },
                    None => None,
                }
            } else {
                None
            }
        } else if spec_is_low_surrogate(u1) {
            None
        } else {
            Some((spec_utf8_of(u1), i + 4))
        },
        None => None,
    }
}

/// Scans the content of a string token, starting just after the opening
/// quote. Yields the unescaped content and the index just after the closing
/// quote. Control bytes below 0x20 and truncated escapes make the token
/// invalid.
pub open spec fn spec_scan_content(s: Seq<u8>, i: int) -> Option<(Seq<u8>, int)>
    decreases s.len() - i,
{
    if 0 <= i < s.len() {
        let b = s[i];
        if b == ('"' as u8) {
            Some((Seq::empty(), i + 1))
        } else if b == ('\\' as u8) {
            if i + 1 < s.len() {
                if s[i + 1] == ('u' as u8) {
                    match spec_scan_unicode_escape(s, i + 2) {
                        Some(e) => match spec_scan_content(s, e.1) {
                            Some(t) => Some((e.0 + t.0, t.1)),
                            None => None,
                        },
                        None => None,
                    }
                } else {
                    match spec_unescape(s[i + 1]) {
                        Some(c) => match spec_scan_content(s, i + 2) {
                            Some(t) => Some((seq![c] + t.0, t.1)),
                            None => None,
                        },
                        None => None,
                    }
                }
            } else {
                None
            }
        } else if b >= 0x20 {
            match spec_scan_content(s, i + 1) {
                Some(t) => Some((seq![b] + t.0, t.1)),
                None => None,
            }
        } else {
            None
        }
    } else {
        None
    }
}

pub proof fn lemma_scan_content_bounds(s: Seq<u8>, i: int)
    requires
        0 <= i,
    ensures
        match spec_scan_content(s, i) {
            Some(t) => i < t.1 <= s.len(),
            None => true,
        },
    decreases s.len() - i,
{
    if i < s.len() {
        let b = s[i];
        if b == ('"' as u8) {
        } else if b == ('\\' as u8) {
            if i + 1 < s.len() {
                if s[i + 1] == ('u' as u8) {
                    match spec_scan_unicode_escape(s, i + 2) {
                        Some(e) => {
                            lemma_scan_content_bounds(s, e.1);
                        },
                        None => {},
                    }
                } else {
                    lemma_scan_content_bounds(s, i + 2);
                }
            }
        } else if b >= 0x20 {
            lemma_scan_content_bounds(s, i + 1);
        }
    }
}

fn unescape(b: u8) -> (r: Option<u8>)
    ensures
        r == spec_unescape(b),
{
    if b == ('"' as u8) {
        Some(('"' as u8))
    } else if b == ('\\' as u8) {
        Some(('\\' as u8))
    } else if b == ('/' as u8) {
        Some(('/' as u8))
    } else if b == ('n' as u8) {
        Some(('\n' as u8))
    } else if b == ('t' as u8) {
        Some(('\t' as u8))
    } else if b == ('r' as u8) {
        Some(('\r' as u8))
    } else if b == ('b' as u8) {
        Some(8u8)
    } else if b == ('f' as u8) {
        Some(12u8)
    } else {
        None
    }
}

fn hex_val(b: u8) -> (r: Option<u8>)
    ensures
        r == spec_hex_val(b),
{
    if ('0' as u8) <= b && b <= ('9' as u8) {
        Some(b - ('0' as u8))
    } else if ('a' as u8) <= b && b <= ('f' as u8) {
        Some(b - ('a' as u8) + 10)
    } else if ('A' as u8) <= b && b <= ('F' as u8) {
        Some(b - ('A' as u8) + 10)
    } else {
        None
    }
}

fn hex4(s: &[u8], i: usize) -> (r: Option<u32>)
    requires
        i + 4 <= s@.len(),
    ensures
        r == spec_hex4(s@, i as int),
{
    match (hex_val(s[i]), hex_val(s[i + 1]), hex_val(s[i + 2]), hex_val(s[i + 3])) {
        (Some(a), Some(b), Some(c), Some(d)) => Some(
            (a as u32) * 4096 + (b as u32) * 256 + (c as u32) * 16 + (d as u32),
        ),
        _ => None,
    }
}

fn push_utf8_of(out: &mut Vec<u8>, c: u32)
    requires
        c < 0x110000,
    ensures
        final(out)@ == old(out)@ + spec_utf8_of(c),
{
    if c < 0x80 {
        out.push(c as u8);
    } else if c < 0x800 {
        out.push((0xC0 + c / 64) as u8);
        out.push((0x80 + c % 64) as u8);
    } else if c < 0x10000 {
        out.push((0xE0 + c / 4096) as u8);
        out.push((0x80 + (c / 64) % 64) as u8);
        out.push((0x80 + c % 64) as u8);
    } else {
        out.push((0xF0 + c / 262144) as u8);
        out.push((0x80 + (c / 4096) % 64) as u8);
        out.push((0x80 + (c / 64) % 64) as u8);
        out.push((0x80 + c % 64) as u8);
    }
    proof {
        assert(out@ =~= old(out)@ + spec_utf8_of(c));
    }
}

/// Reads a `\u` escape with the first hex digit at `i`, as
/// [`spec_scan_unicode_escape`] states.
fn scan_unicode_escape(s: &[u8], i: usize) -> (r: Option<(u32, usize)>)
    requires
        i <= s@.len(),
    ensures
        match r {
            Some(t) => spec_scan_unicode_escape(s@, i as int) == Some(
                (spec_utf8_of(t.0), t.1 as int),
            ) && t.0 < 0x110000 && i < t.1 <= s@.len(),
            None => spec_scan_unicode_escape(s@, i as int) is None,
        },
{
    if s.len() - i < 4 {
        return None;
    }
    match hex4(s, i) {
        None => None,
        Some(u1) => {
            if 0xD800 <= u1 && u1 <= 0xDBFF {
                if s.len() - i > 5 && s[i + 4] == ('\\' as u8) && s[i + 5] == ('u' as u8) {
                    if s.len() - i < 10 {
                        return None;
                    }
                    match hex4(s, i + 6) {
                        None => None,
                        Some(u2) => {
                            if 0xDC00 <= u2 && u2 <= 0xDFFF {
                                let scalar = 0x10000 + (u1 - 0xD800) * 0x400 + (u2 - 0xDC00);
                                Some((scalar, i + 10))
                            } else {
                                None
                            }
                        },
                    }
                } else {
                    None
                }
            } else if 0xDC00 <= u1 && u1 <= 0xDFFF {
                None
            } else {
                Some((u1, i + 4))
            }
        },
    }
}

fn scan_content(s: &[u8], start: usize) -> (r: Option<(Vec<u8>, usize)>)
    requires
        start <= s@.len(),
    ensures
        match r {
            Some(t) => spec_scan_content(s@, start as int) == Some((t.0@, t.1 as int)) && start
                < t.1 <= s@.len(),
            None => spec_scan_content(s@, start as int) is None,
        },
{
    let mut i = start;
    let mut out: Vec<u8> = Vec::new();
    proof {
        assert(out@ + Seq::<u8>::empty() =~= out@);
    }
    loop
        invariant
            start <= i <= s@.len(),
            (match spec_scan_content(s@, i as int) {
                Some(t) => spec_scan_content(s@, start as int) == Some((out@ + t.0, t.1)),
                None => spec_scan_content(s@, start as int) is None,
            }),
        decreases s@.len() - i,
    {
        if i >= s.len() {
            return None;
        }
        let b = s[i];
        if b == ('"' as u8) {
            proof {
                assert(spec_scan_content(s@, i as int) == Some((Seq::<u8>::empty(), i + 1)));
                assert(out@ + Seq::<u8>::empty() =~= out@);
                lemma_scan_content_bounds(s@, start as int);
            }
            return Some((out, i + 1));
        } else if b == ('\\' as u8) {
            if i + 1 >= s.len() {
                return None;
            }
            if s[i + 1] == ('u' as u8) {
                match scan_unicode_escape(s, i + 2) {
                    None => {
                        return None;
                    },
                    Some((scalar, next)) => {
                        let ghost prev = out@;
                        push_utf8_of(&mut out, scalar);
                        proof {
                            match spec_scan_content(s@, next as int) {
                                Some(t) => {
                                    assert(out@ + t.0 =~= prev + (spec_utf8_of(scalar) + t.0));
                                },
                                None => {},
                            }
                        }
                        i = next;
                    },
                }
            } else {
                let e = unescape(s[i + 1]);
                match e {
                    None => {
                        return None;
                    },
                    Some(c) => {
                        let ghost prev = out@;
                        out.push(c);
                        proof {
                            match spec_scan_content(s@, (i + 2) as int) {
                                Some(t) => {
                                    assert(out@ + t.0 =~= prev + (seq![c] + t.0));
                                },
                                None => {},
                            }
                        }
                        i = i + 2;
                    },
                }
            }
        } else if b >= 0x20 {
            let ghost prev = out@;
            out.push(b);
            proof {
                match spec_scan_content(s@, (i + 1) as int) {
                    Some(t) => {
                        assert(out@ + t.0 =~= prev + (seq![b] + t.0));
                    },
                    None => {},
                }
            }
            i = i + 1;
        } else {
            return None;
        }
    }
}

/// A string token at index `i`: an opening quote, content, closing quote.
pub open spec fn spec_parse_string(s: Seq<u8>, i: int) -> Option<(Seq<u8>, int)> {
    if 0 <= i < s.len() && s[i] == ('"' as u8) {
        spec_scan_content(s, i + 1)
    } else {
        None
    }
}

fn parse_string(s: &[u8], i: usize) -> (r: Option<(Vec<u8>, usize)>)
    requires
        i <= s@.len(),
    ensures
        match r {
            Some(t) => spec_parse_string(s@, i as int) == Some((t.0@, t.1 as int)) && i < t.1
                <= s@.len(),
            None => spec_parse_string(s@, i as int) is None,
        },
{
    if i < s.len() && s[i] == ('"' as u8) {
        scan_content(s, i + 1)
    } else {
        None
    }
}

// ---------------------------------------------------------------------------
// Boolean literals
// ---------------------------------------------------------------------------

pub open spec fn spec_parse_bool(s: Seq<u8>, i: int) -> Option<(bool, int)> {
    if 0 <= i && i + 4 <= s.len() && s[i] == ('t' as u8) && s[i + 1] == ('r' as u8) && s[i + 2] == ('u' as u8) && s[i
        + 3] == ('e' as u8) {
        Some((true, i + 4))
    } else if 0 <= i && i + 5 <= s.len() && s[i] == ('f' as u8) && s[i + 1] == ('a' as u8) && s[i + 2] == ('l' as u8)
        && s[i + 3] == ('s' as u8) && s[i + 4] == ('e' as u8) {
        Some((false, i + 5))
    } else {
        None
    }
}

fn parse_bool(s: &[u8], i: usize) -> (r: Option<(bool, usize)>)
    requires
        i <= s@.len(),
    ensures
        match r {
            Some(t) => spec_parse_bool(s@, i as int) == Some((t.0, t.1 as int)) && i < t.1
                <= s@.len(),
            None => spec_parse_bool(s@, i as int) is None,
        },
{
    if s.len() - i >= 4 && s[i] == ('t' as u8) && s[i + 1] == ('r' as u8) && s[i + 2] == ('u' as u8) && s[i + 3]
        == ('e' as u8) {
        Some((true, i + 4))
    } else if s.len() - i >= 5 && s[i] == ('f' as u8) && s[i + 1] == ('a' as u8) && s[i + 2] == ('l' as u8) && s[i + 3]
        == ('s' as u8) && s[i + 4] == ('e' as u8) {
        Some((false, i + 5))
    } else {
        None
    }
}


/// The `null` literal at `i`, yielding the index just after it.
pub open spec fn spec_parse_null(s: Seq<u8>, i: int) -> Option<int> {
    if 0 <= i && i + 4 <= s.len() && s[i] == ('n' as u8) && s[i + 1] == ('u' as u8) && s[i + 2]
        == ('l' as u8) && s[i + 3] == ('l' as u8) {
        Some(i + 4)
    } else {
        None
    }
}

fn parse_null(s: &[u8], i: usize) -> (r: Option<usize>)
    requires
        i <= s@.len(),
    ensures
        match r {
            Some(p) => spec_parse_null(s@, i as int) == Some(p as int) && i < p <= s@.len(),
            None => spec_parse_null(s@, i as int) is None,
        },
{
    if s.len() - i >= 4 && s[i] == ('n' as u8) && s[i + 1] == ('u' as u8) && s[i + 2] == ('l'
        as u8) && s[i + 3] == ('l' as u8) {
        Some(i + 4)
    } else {
        None
    }
}

// ---------------------------------------------------------------------------
// Keywords
// ---------------------------------------------------------------------------

/// True when `b` spells `name`.
pub open spec fn bytes_is_name(b: Seq<u8>) -> bool {
    b == seq![('n' as u8), ('a' as u8), ('m' as u8), ('e' as u8)]
}

/// True when `b` spells `pass`.
pub open spec fn bytes_is_pass(b: Seq<u8>) -> bool {
    b == seq![('p' as u8), ('a' as u8), ('s' as u8), ('s' as u8)]
}

/// True when `b` spells `resultDisplay`.
pub open spec fn bytes_is_result_display(b: Seq<u8>) -> bool {
    b == seq![('r' as u8), ('e' as u8), ('s' as u8), ('u' as u8), ('l' as u8), ('t' as u8), ('D' as u8), ('i' as u8), ('s' as u8), ('p' as u8), ('l' as u8), ('a' as u8), ('y' as u8)]
}

/// True when `b` spells `Pass`.
pub open spec fn bytes_is_pass_tag(b: Seq<u8>) -> bool {
    b == seq![('P' as u8), ('a' as u8), ('s' as u8), ('s' as u8)]
}

/// True when `b` spells `Fail`.
pub open spec fn bytes_is_fail_tag(b: Seq<u8>) -> bool {
    b == seq![('F' as u8), ('a' as u8), ('i' as u8), ('l' as u8)]
}

/// True when `b` spells `Info`.
pub open spec fn bytes_is_info_tag(b: Seq<u8>) -> bool {
    b == seq![('I' as u8), ('n' as u8), ('f' as u8), ('o' as u8)]
}

/// True when `b` spells `Warning`.
pub open spec fn bytes_is_warning_tag(b: Seq<u8>) -> bool {
    b == seq![('W' as u8), ('a' as u8), ('r' as u8), ('n' as u8), ('i' as u8), ('n' as u8), ('g' as u8)]
}

/// True when `b` spells `Empty`.
pub open spec fn bytes_is_empty_tag(b: Seq<u8>) -> bool {
    b == seq![('E' as u8), ('m' as u8), ('p' as u8), ('t' as u8), ('y' as u8)]
}

/// True when `b` spells `Text`.
pub open spec fn bytes_is_text_tag(b: Seq<u8>) -> bool {
    b == seq![('T' as u8), ('e' as u8), ('x' as u8), ('t' as u8)]
}

/// True when `b` spells `Diff`.
pub open spec fn bytes_is_diff_tag(b: Seq<u8>) -> bool {
    b == seq![('D' as u8), ('i' as u8), ('f' as u8), ('f' as u8)]
}

/// True when `b` spells `Run`.
pub open spec fn bytes_is_run_tag(b: Seq<u8>) -> bool {
    b == seq![('R' as u8), ('u' as u8), ('n' as u8)]
}

/// True when `b` spells `input`.
pub open spec fn bytes_is_input(b: Seq<u8>) -> bool {
    b == seq![('i' as u8), ('n' as u8), ('p' as u8), ('u' as u8), ('t' as u8)]
}

/// True when `b` spells `output`.
pub open spec fn bytes_is_output(b: Seq<u8>) -> bool {
    b == seq![('o' as u8), ('u' as u8), ('t' as u8), ('p' as u8), ('u' as u8), ('t' as u8)]
}

/// True when `b` spells `error`.
pub open spec fn bytes_is_error(b: Seq<u8>) -> bool {
    b == seq![('e' as u8), ('r' as u8), ('r' as u8), ('o' as u8), ('r' as u8)]
}

/// True when `b` spells `expected`.
pub open spec fn bytes_is_expected(b: Seq<u8>) -> bool {
    b == seq![('e' as u8), ('x' as u8), ('p' as u8), ('e' as u8), ('c' as u8), ('t' as u8), ('e' as u8), ('d' as u8)]
}

fn check_name(v: &[u8]) -> (r: bool)
    ensures
        r == bytes_is_name(v@),
{
    if v.len() == 4 && v[0] == ('n' as u8) && v[1] == ('a' as u8) && v[2] == ('m' as u8) && v[3] == ('e' as u8) {
        proof {
            assert(v@ =~= seq![('n' as u8), ('a' as u8), ('m' as u8), ('e' as u8)]);
        }
        true
    } else {
        false
    }
}

fn check_pass(v: &[u8]) -> (r: bool)
    ensures
        r == bytes_is_pass(v@),
{
    if v.len() == 4 && v[0] == ('p' as u8) && v[1] == ('a' as u8) && v[2] == ('s' as u8) && v[3] == ('s' as u8) {
        proof {
            assert(v@ =~= seq![('p' as u8), ('a' as u8), ('s' as u8), ('s' as u8)]);
        }
        true
    } else {
        false
    }
}

fn check_result_display(v: &[u8]) -> (r: bool)
    ensures
        r == bytes_is_result_display(v@),
{
    if v.len() == 13 && v[0] == ('r' as u8) && v[1] == ('e' as u8) && v[2] == ('s' as u8) && v[3] == ('u' as u8) && v[4] == ('l' as u8) && v[5] == ('t' as u8) && v[6] == ('D' as u8) && v[7] == ('i' as u8) && v[8] == ('s' as u8) && v[9] == ('p' as u8) && v[10] == ('l' as u8) && v[11] == ('a' as u8) && v[12] == ('y' as u8) {
        proof {
            assert(v@ =~= seq![('r' as u8), ('e' as u8), ('s' as u8), ('u' as u8), ('l' as u8), ('t' as u8), ('D' as u8), ('i' as u8), ('s' as u8), ('p' as u8), ('l' as u8), ('a' as u8), ('y' as u8)]);
        }
        true
    } else {
        false
    }
}

fn check_pass_tag(v: &[u8]) -> (r: bool)
    ensures
        r == bytes_is_pass_tag(v@),
{
    if v.len() == 4 && v[0] == ('P' as u8) && v[1] == ('a' as u8) && v[2] == ('s' as u8) && v[3] == ('s' as u8) {
        proof {
            assert(v@ =~= seq![('P' as u8), ('a' as u8), ('s' as u8), ('s' as u8)]);
        }
        true
    } else {
        false
    }
}

fn check_fail_tag(v: &[u8]) -> (r: bool)
    ensures
        r == bytes_is_fail_tag(v@),
{
    if v.len() == 4 && v[0] == ('F' as u8) && v[1] == ('a' as u8) && v[2] == ('i' as u8) && v[3] == ('l' as u8) {
        proof {
            assert(v@ =~= seq![('F' as u8), ('a' as u8), ('i' as u8), ('l' as u8)]);
        }
        true
    } else {
        false
    }
}

fn check_info_tag(v: &[u8]) -> (r: bool)
    ensures
        r == bytes_is_info_tag(v@),
{
    if v.len() == 4 && v[0] == ('I' as u8) && v[1] == ('n' as u8) && v[2] == ('f' as u8) && v[3] == ('o' as u8) {
        proof {
            assert(v@ =~= seq![('I' as u8), ('n' as u8), ('f' as u8), ('o' as u8)]);
        }
        true
    } else {
        false
    }
}

fn check_warning_tag(v: &[u8]) -> (r: bool)
    ensures
        r == bytes_is_warning_tag(v@),
{
    if v.len() == 7 && v[0] == ('W' as u8) && v[1] == ('a' as u8) && v[2] == ('r' as u8) && v[3] == ('n' as u8) && v[4] == ('i' as u8) && v[5] == ('n' as u8) && v[6] == ('g' as u8) {
        proof {
            assert(v@ =~= seq![('W' as u8), ('a' as u8), ('r' as u8), ('n' as u8), ('i' as u8), ('n' as u8), ('g' as u8)]);
        }
        true
    } else {
        false
    }
}

fn check_empty_tag(v: &[u8]) -> (r: bool)
    ensures
        r == bytes_is_empty_tag(v@),
{
    if v.len() == 5 && v[0] == ('E' as u8) && v[1] == ('m' as u8) && v[2] == ('p' as u8) && v[3] == ('t' as u8) && v[4] == ('y' as u8) {
        proof {
            assert(v@ =~= seq![('E' as u8), ('m' as u8), ('p' as u8), ('t' as u8), ('y' as u8)]);
        }
        true
    } else {
        false
    }
}

fn check_text_tag(v: &[u8]) -> (r: bool)
    ensures
        r == bytes_is_text_tag(v@),
{
    if v.len() == 4 && v[0] == ('T' as u8) && v[1] == ('e' as u8) && v[2] == ('x' as u8) && v[3] == ('t' as u8) {
        proof {
            assert(v@ =~= seq![('T' as u8), ('e' as u8), ('x' as u8), ('t' as u8)]);
        }
        true
    } else {
        false
    }
}

fn check_diff_tag(v: &[u8]) -> (r: bool)
    ensures
        r == bytes_is_diff_tag(v@),
{
    if v.len() == 4 && v[0] == ('D' as u8) && v[1] == ('i' as u8) && v[2] == ('f' as u8) && v[3] == ('f' as u8) {
        proof {
            assert(v@ =~= seq![('D' as u8), ('i' as u8), ('f' as u8), ('f' as u8)]);
        }
        true
    } else {
        false
    }
}

fn check_run_tag(v: &[u8]) -> (r: bool)
    ensures
        r == bytes_is_run_tag(v@),
{
    if v.len() == 3 && v[0] == ('R' as u8) && v[1] == ('u' as u8) && v[2] == ('n' as u8) {
        proof {
            assert(v@ =~= seq![('R' as u8), ('u' as u8), ('n' as u8)]);
        }
        true
    } else {
        false
    }
}

fn check_input(v: &[u8]) -> (r: bool)
    ensures
        r == bytes_is_input(v@),
{
    if v.len() == 5 && v[0] == ('i' as u8) && v[1] == ('n' as u8) && v[2] == ('p' as u8) && v[3] == ('u' as u8) && v[4] == ('t' as u8) {
        proof {
            assert(v@ =~= seq![('i' as u8), ('n' as u8), ('p' as u8), ('u' as u8), ('t' as u8)]);
        }
        true
    } else {
        false
    }
}

fn check_output(v: &[u8]) -> (r: bool)
    ensures
        r == bytes_is_output(v@),
{
    if v.len() == 6 && v[0] == ('o' as u8) && v[1] == ('u' as u8) && v[2] == ('t' as u8) && v[3] == ('p' as u8) && v[4] == ('u' as u8) && v[5] == ('t' as u8) {
        proof {
            assert(v@ =~= seq![('o' as u8), ('u' as u8), ('t' as u8), ('p' as u8), ('u' as u8), ('t' as u8)]);
        }
        true
    } else {
        false
    }
}

fn check_error(v: &[u8]) -> (r: bool)
    ensures
        r == bytes_is_error(v@),
{
    if v.len() == 5 && v[0] == ('e' as u8) && v[1] == ('r' as u8) && v[2] == ('r' as u8) && v[3] == ('o' as u8) && v[4] == ('r' as u8) {
        proof {
            assert(v@ =~= seq![('e' as u8), ('r' as u8), ('r' as u8), ('o' as u8), ('r' as u8)]);
        }
        true
    } else {
        false
    }
}

fn check_expected(v: &[u8]) -> (r: bool)
    ensures
        r == bytes_is_expected(v@),
{
    if v.len() == 8 && v[0] == ('e' as u8) && v[1] == ('x' as u8) && v[2] == ('p' as u8) && v[3] == ('e' as u8) && v[4] == ('c' as u8) && v[5] == ('t' as u8) && v[6] == ('e' as u8) && v[7] == ('d' as u8) {
        proof {
            assert(v@ =~= seq![('e' as u8), ('x' as u8), ('p' as u8), ('e' as u8), ('c' as u8), ('t' as u8), ('e' as u8), ('d' as u8)]);
        }
        true
    } else {
        false
    }
}


// ---------------------------------------------------------------------------
// Raw records: parsed shapes whose text is still bytes
// ---------------------------------------------------------------------------

/// A display payload whose textual content is still raw bytes.
pub enum DisplayBytes {
    Empty,
    Text(Vec<u8>),
    Diff { output: Vec<u8>, expected: Vec<u8> },
    Run { input: Option<Vec<u8>>, output: Vec<u8>, error: Vec<u8> },
}

/// Mathematical image of [`DisplayBytes`].
pub ghost enum DisplayBytesV {
    Empty,
    Text(Seq<u8>),
    Diff { output: Seq<u8>, expected: Seq<u8> },
    Run { input: Option<Seq<u8>>, output: Seq<u8>, error: Seq<u8> },
}

impl View for DisplayBytes {
    type V = DisplayBytesV;

    open spec fn view(&self) -> DisplayBytesV {
        match self {
            DisplayBytes::Empty => DisplayBytesV::Empty,
            DisplayBytes::Text(t) => DisplayBytesV::Text(t@),
            DisplayBytes::Diff { output, expected } => DisplayBytesV::Diff {
                output: output@,
                expected: expected@,
            },
            DisplayBytes::Run { input, output, error } => DisplayBytesV::Run {
                input: match input {
                    Some(v) => Some(v@),
                    None => None,
                },
                output: output@,
                error: error@,
            },
        }
    }
}

/// A test-case record whose textual content is still raw bytes.
pub struct CaseBytes {
    pub name: Option<Vec<u8>>,
    pub pass: TestPassState,
    pub display: DisplayBytes,
}

/// Mathematical image of [`CaseBytes`].
pub ghost struct CaseBytesV {
    pub name: Option<Seq<u8>>,
    pub pass: TestPassState,
    pub display: DisplayBytesV,
}

impl View for CaseBytes {
    type V = CaseBytesV;

    open spec fn view(&self) -> CaseBytesV {
        CaseBytesV {
            name: match &self.name {
                Some(v) => Some(v@),
                None => None,
            },
            pass: self.pass,
            display: self.display@,
        }
    }
}

/// The pass state a string content stands for, if any.
pub open spec fn spec_pass_state_of(b: Seq<u8>) -> Option<TestPassState> {
    if bytes_is_pass_tag(b) {
        Some(TestPassState::Pass)
    } else if bytes_is_fail_tag(b) {
        Some(TestPassState::Fail)
    } else if bytes_is_info_tag(b) {
        Some(TestPassState::Info)
    } else if bytes_is_warning_tag(b) {
        Some(TestPassState::Warning)
    } else {
        None
    }
}

fn pass_state_of(v: &[u8]) -> (r: Option<TestPassState>)
    ensures
        r == spec_pass_state_of(v@),
{
    if check_pass_tag(v) {
        Some(TestPassState::Pass)
    } else if check_fail_tag(v) {
        Some(TestPassState::Fail)
    } else if check_info_tag(v) {
        Some(TestPassState::Info)
    } else if check_warning_tag(v) {
        Some(TestPassState::Warning)
    } else {
        None
    }
}

// ---------------------------------------------------------------------------
// Object members with string values
// ---------------------------------------------------------------------------

/// One `"key" : "value"` member starting at `i`. Yields the key content, the
/// value content, and the index just after the value.
pub open spec fn spec_parse_member(s: Seq<u8>, i: int) -> Option<(Seq<u8>, Seq<u8>, int)> {
    match spec_parse_string(s, i) {
        Some((k, p)) => {
            let q = spec_skip_ws(s, p);
            if q < s.len() && s[q] == (':' as u8) {
                let v = spec_skip_ws(s, q + 1);
                match spec_parse_string(s, v) {
                    Some((content, p2)) => Some((k, content, p2)),
                    None => None,
                }
            } else {
                None
            }
        },
        None => None,
    }
}

fn parse_member(s: &[u8], i: usize) -> (r: Option<(Vec<u8>, Vec<u8>, usize)>)
    requires
        i <= s@.len(),
    ensures
        match r {
            Some(t) => spec_parse_member(s@, i as int) == Some((t.0@, t.1@, t.2 as int)) && i < t.2
                <= s@.len(),
            None => spec_parse_member(s@, i as int) is None,
        },
{
    match parse_string(s, i) {
        Some((k, p)) => {
            let q = skip_ws(s, p);
            if q < s.len() && s[q] == (':' as u8) {
                let v = skip_ws(s, q + 1);
                match parse_string(s, v) {
                    Some((content, p2)) => Some((k, content, p2)),
                    None => None,
                }
            } else {
                None
            }
        },
        None => None,
    }
}

// ---------------------------------------------------------------------------
// The Diff and Run display objects
// ---------------------------------------------------------------------------

/// Accumulator for the members of a `Diff` object.
pub ghost struct DiffAccV {
    pub output: Option<Seq<u8>>,
    pub expected: Option<Seq<u8>>,
}

/// Folds one member into a `Diff` accumulator; unknown or repeated keys make
/// the object invalid.
pub open spec fn spec_diff_add(acc: DiffAccV, k: Seq<u8>, v: Seq<u8>) -> Option<DiffAccV> {
    if bytes_is_output(k) {
        if acc.output is None {
            Some(DiffAccV { output: Some(v), expected: acc.expected })
        } else {
            None
        }
    } else if bytes_is_expected(k) {
        if acc.expected is None {
            Some(DiffAccV { output: acc.output, expected: Some(v) })
        } else {
            None
        }
    } else {
        None
    }
}

/// The member list of a `Diff` object, starting at a key and ending at the
/// closing brace. `remaining` bounds how many further members may follow; a
/// valid object never needs more members than it has distinct keys.
pub open spec fn spec_diff_members(s: Seq<u8>, i: int, acc: DiffAccV, remaining: nat) -> Option<
    (DiffAccV, int),
>
    decreases remaining,
{
    match spec_parse_member(s, i) {
        Some((k, v, p)) => match spec_diff_add(acc, k, v) {
            Some(acc2) => {
                let q = spec_skip_ws(s, p);
                if q < s.len() && s[q] == (',' as u8) {
                    if remaining > 0 {
                        spec_diff_members(s, spec_skip_ws(s, q + 1), acc2, (remaining - 1) as nat)
                    } else {
                        None
                    }
                } else if q < s.len() && s[q] == ('}' as u8) {
                    Some((acc2, q + 1))
                } else {
                    None
                }
            },
            None => None,
        },
        None => None,
    }
}

/// The body of a `Diff` display: an object with the members `output` and
/// `expected`, in either order.
pub open spec fn spec_parse_diff_body(s: Seq<u8>, i: int) -> Option<(DisplayBytesV, int)> {
    if 0 <= i < s.len() && s[i] == ('{' as u8) {
        match spec_diff_members(
            s,
            spec_skip_ws(s, i + 1),
            DiffAccV { output: None, expected: None },
            1,
        ) {
            Some((acc, p)) => match (acc.output, acc.expected) {
                (Some(o), Some(e)) => Some((DisplayBytesV::Diff { output: o, expected: e }, p)),
                _ => None,
            },
            None => None,
        }
    } else {
        None
    }
}

/// Accumulator for the members of a `Run` object.
pub ghost struct RunAccV {
    pub input: Option<Seq<u8>>,
    pub output: Option<Seq<u8>>,
    pub error: Option<Seq<u8>>,
}

/// Folds one member into a `Run` accumulator.
pub open spec fn spec_run_add(acc: RunAccV, k: Seq<u8>, v: Seq<u8>) -> Option<RunAccV> {
    if bytes_is_input(k) {
        if acc.input is None {
            Some(RunAccV { input: Some(v), output: acc.output, error: acc.error })
        } else {
            None
        }
    } else if bytes_is_output(k) {
        if acc.output is None {
            Some(RunAccV { input: acc.input, output: Some(v), error: acc.error })
        } else {
            None
        }
    } else if bytes_is_error(k) {
        if acc.error is None {
            Some(RunAccV { input: acc.input, output: acc.output, error: Some(v) })
        } else {
            None
        }
    } else {
        None
    }
}

/// The member list of a `Run` object.
pub open spec fn spec_run_members(s: Seq<u8>, i: int, acc: RunAccV, remaining: nat) -> Option<
    (RunAccV, int),
>
    decreases remaining,
{
    match spec_parse_member(s, i) {
        Some((k, v, p)) => match spec_run_add(acc, k, v) {
            Some(acc2) => {
                let q = spec_skip_ws(s, p);
                if q < s.len() && s[q] == (',' as u8) {
                    if remaining > 0 {
                        spec_run_members(s, spec_skip_ws(s, q + 1), acc2, (remaining - 1) as nat)
                    } else {
                        None
                    }
                } else if q < s.len() && s[q] == ('}' as u8) {
                    Some((acc2, q + 1))
                } else {
                    None
                }
            },
            None => None,
        },
        None => None,
    }
}

/// The body of a `Run` display: an object with the members `output` and
/// `error`, and optionally `input`, in any order.
pub open spec fn spec_parse_run_body(s: Seq<u8>, i: int) -> Option<(DisplayBytesV, int)> {
    if 0 <= i < s.len() && s[i] == ('{' as u8) {
        match spec_run_members(
            s,
            spec_skip_ws(s, i + 1),
            RunAccV { input: None, output: None, error: None },
            2,
        ) {
            Some((acc, p)) => match (acc.output, acc.error) {
                (Some(o), Some(e)) => Some(
                    (DisplayBytesV::Run { input: acc.input, output: o, error: e }, p),
                ),
                _ => None,
            },
            None => None,
        }
    } else {
        None
    }
}

// ---------------------------------------------------------------------------
// The resultDisplay value
// ---------------------------------------------------------------------------

/// After a display payload's own value, only whitespace and the closing brace
/// of the wrapping one-member object may follow.
pub open spec fn spec_close_display(s: Seq<u8>, p: int, d: DisplayBytesV) -> Option<
    (DisplayBytesV, int),
> {
    let q = spec_skip_ws(s, p);
    if q < s.len() && s[q] == ('}' as u8) {
        Some((d, q + 1))
    } else {
        None
    }
}

/// A display payload value: the string `"Empty"`, or a one-member object
/// tagged `Text`, `Diff` or `Run`.
pub open spec fn spec_parse_display(s: Seq<u8>, i: int) -> Option<(DisplayBytesV, int)> {
    if 0 <= i < s.len() && s[i] == ('"' as u8) {
        match spec_scan_content(s, i + 1) {
            Some((content, p)) => if bytes_is_empty_tag(content) {
                Some((DisplayBytesV::Empty, p))
            } else {
                None
            },
            None => None,
        }
    } else if 0 <= i < s.len() && s[i] == ('{' as u8) {
        match spec_parse_string(s, spec_skip_ws(s, i + 1)) {
            Some((tag, p)) => {
                let q = spec_skip_ws(s, p);
                if q < s.len() && s[q] == (':' as u8) {
                    let v = spec_skip_ws(s, q + 1);
                    if bytes_is_text_tag(tag) {
                        match spec_parse_string(s, v) {
                            Some((content, p2)) => spec_close_display(
                                s,
                                p2,
                                DisplayBytesV::Text(content),
                            ),
                            None => None,
                        }
                    } else if bytes_is_diff_tag(tag) {
                        match spec_parse_diff_body(s, v) {
                            Some((d, p2)) => spec_close_display(s, p2, d),
                            None => None,
                        }
                    } else if bytes_is_run_tag(tag) {
                        match spec_parse_run_body(s, v) {
                            Some((d, p2)) => spec_close_display(s, p2, d),
                            None => None,
                        }
                    } else {
                        None
                    }
                } else {
                    None
                }
            },
            None => None,
        }
    } else {
        None
    }
}

// ---------------------------------------------------------------------------
// Test-case records and final-verdict records
// ---------------------------------------------------------------------------

/// Accumulator for the members of a test-case record. A `name` member may
/// hold `null`, which counts as the key being given while leaving no name,
/// so the key-seen state is carried separately.
pub ghost struct TcAccV {
    pub name: Option<Seq<u8>>,
    pub name_seen: bool,
    pub pass: Option<TestPassState>,
    pub display: Option<DisplayBytesV>,
}

/// One member of a test-case record, starting at its key.
pub open spec fn spec_tc_member(s: Seq<u8>, i: int, acc: TcAccV) -> Option<(TcAccV, int)> {
    match spec_parse_string(s, i) {
        Some((k, p)) => {
            let q = spec_skip_ws(s, p);
            if q < s.len() && s[q] == (':' as u8) {
                let v = spec_skip_ws(s, q + 1);
                if bytes_is_name(k) {
                    if !acc.name_seen {
                        match spec_parse_string(s, v) {
                            Some((content, p2)) => Some(
                                (
                                    TcAccV {
                                        name: Some(content),
                                        name_seen: true,
                                        pass: acc.pass,
                                        display: acc.display,
                                    },
                                    p2,
                                ),
                            ),
                            None => match spec_parse_null(s, v) {
                                Some(p2) => Some(
                                    (
                                        TcAccV {
                                            name: None,
                                            name_seen: true,
                                            pass: acc.pass,
                                            display: acc.display,
                                        },
                                        p2,
                                    ),
                                ),
                                None => None,
                            },
                        }
                    } else {
                        None
                    }
                } else if bytes_is_pass(k) {
                    if acc.pass is None {
                        match spec_parse_string(s, v) {
                            Some((content, p2)) => match spec_pass_state_of(content) {
                                Some(ps) => Some(
                                    (
                                        TcAccV {
                                            name: acc.name,
                                            name_seen: acc.name_seen,
                                            pass: Some(ps),
                                            display: acc.display,
                                        },
                                        p2,
                                    ),
                                ),
                                None => None,
                            },
                            None => None,
                        }
                    } else {
                        None
                    }
                } else if bytes_is_result_display(k) {
                    if acc.display is None {
                        match spec_parse_display(s, v) {
                            Some((d, p2)) => Some(
                                (
                                    TcAccV {
                                        name: acc.name,
                                        name_seen: acc.name_seen,
                                        pass: acc.pass,
                                        display: Some(d),
                                    },
                                    p2,
                                ),
                            ),
                            None => None,
                        }
                    } else {
                        None
                    }
                } else {
                    None
                }
            } else {
                None
            }
        },
        None => None,
    }
}

/// The member list of a test-case record.
pub open spec fn spec_tc_members(s: Seq<u8>, i: int, acc: TcAccV, remaining: nat) -> Option<
    (TcAccV, int),
>
    decreases remaining,
{
    match spec_tc_member(s, i, acc) {
        Some((acc2, p)) => {
            let q = spec_skip_ws(s, p);
            if q < s.len() && s[q] == (',' as u8) {
                if remaining > 0 {
                    spec_tc_members(s, spec_skip_ws(s, q + 1), acc2, (remaining - 1) as nat)
                } else {
                    None
                }
            } else if q < s.len() && s[q] == ('}' as u8) {
                Some((acc2, q + 1))
            } else {
                None
            }
        },
        None => None,
    }
}

/// A whole line as a test-case record: an object holding `pass` and
/// `resultDisplay`, and optionally `name`, each at most once, with nothing
/// but whitespace after the closing brace.
pub open spec fn spec_parse_test_case(line: Seq<u8>) -> Option<CaseBytesV> {
    let i = spec_skip_ws(line, 0);
    if i < line.len() && line[i] == ('{' as u8) {
        match spec_tc_members(
            line,
            spec_skip_ws(line, i + 1),
            TcAccV { name: None, name_seen: false, pass: None, display: None },
            2,
        ) {
            Some((acc, p)) => if spec_skip_ws(line, p) == line.len() {
                match (acc.pass, acc.display) {
                    (Some(ps), Some(d)) => Some(CaseBytesV { name: acc.name, pass: ps, display: d }),
                    _ => None,
                }
            } else {
                None
            },
            None => None,
        }
    } else {
        None
    }
}

/// A whole line as a final-verdict record: an object holding exactly the
/// member `pass` with a boolean value.
pub open spec fn spec_parse_verdict(line: Seq<u8>) -> Option<bool> {
    let i = spec_skip_ws(line, 0);
    if i < line.len() && line[i] == ('{' as u8) {
        match spec_parse_string(line, spec_skip_ws(line, i + 1)) {
            Some((k, p)) => if bytes_is_pass(k) {
                let q = spec_skip_ws(line, p);
                if q < line.len() && line[q] == (':' as u8) {
                    match spec_parse_bool(line, spec_skip_ws(line, q + 1)) {
                        Some((b, p2)) => {
                            let q2 = spec_skip_ws(line, p2);
                            if q2 < line.len() && line[q2] == ('}' as u8) && spec_skip_ws(
                                line,
                                q2 + 1,
                            ) == line.len() {
                                Some(b)
                            } else {
                                None
                            }
                        },
                        None => None,
                    }
                } else {
                    None
                }
            } else {
                None
            },
            None => None,
        }
    } else {
        None
    }
}


// ---------------------------------------------------------------------------
// Executable record parsers
// ---------------------------------------------------------------------------

pub struct DiffAcc {
    pub output: Option<Vec<u8>>,
    pub expected: Option<Vec<u8>>,
}

impl View for DiffAcc {
    type V = DiffAccV;

    open spec fn view(&self) -> DiffAccV {
        DiffAccV {
            output: match &self.output {
                Some(v) => Some(v@),
                None => None,
            },
            expected: match &self.expected {
                Some(v) => Some(v@),
                None => None,
            },
        }
    }
}

fn diff_add(acc: DiffAcc, k: &Vec<u8>, v: Vec<u8>) -> (r: Option<DiffAcc>)
    ensures
        match r {
            Some(a2) => spec_diff_add(acc@, k@, v@) == Some(a2@),
            None => spec_diff_add(acc@, k@, v@) is None,
        },
{
    if check_output(k.as_slice()) {
        if acc.output.is_none() {
            Some(DiffAcc { output: Some(v), expected: acc.expected })
        } else {
            None
        }
    } else if check_expected(k.as_slice()) {
        if acc.expected.is_none() {
            Some(DiffAcc { output: acc.output, expected: Some(v) })
        } else {
            None
        }
    } else {
        None
    }
}

fn diff_members(s: &[u8], i: usize, acc: DiffAcc, remaining: u8) -> (r: Option<(DiffAcc, usize)>)
    requires
        i <= s@.len(),
    ensures
        match r {
            Some(t) => spec_diff_members(s@, i as int, acc@, remaining as nat) == Some(
                (t.0@, t.1 as int),
            ) && t.1 <= s@.len(),
            None => spec_diff_members(s@, i as int, acc@, remaining as nat) is None,
        },
    decreases remaining,
{
    match parse_member(s, i) {
        Some((k, v, p)) => match diff_add(acc, &k, v) {
            Some(acc2) => {
                let q = skip_ws(s, p);
                if q < s.len() && s[q] == (',' as u8) {
                    if remaining > 0 {
                        diff_members(s, skip_ws(s, q + 1), acc2, remaining - 1)
                    } else {
                        None
                    }
                } else if q < s.len() && s[q] == ('}' as u8) {
                    Some((acc2, q + 1))
                } else {
                    None
                }
            },
            None => None,
        },
        None => None,
    }
}

fn parse_diff_body(s: &[u8], i: usize) -> (r: Option<(DisplayBytes, usize)>)
    requires
        i <= s@.len(),
    ensures
        match r {
            Some(t) => spec_parse_diff_body(s@, i as int) == Some((t.0@, t.1 as int)) && t.1
                <= s@.len(),
            None => spec_parse_diff_body(s@, i as int) is None,
        },
{
    if i < s.len() && s[i] == ('{' as u8) {
        match diff_members(s, skip_ws(s, i + 1), DiffAcc { output: None, expected: None }, 1) {
            Some((acc, p)) => match (acc.output, acc.expected) {
                (Some(o), Some(e)) => Some((DisplayBytes::Diff { output: o, expected: e }, p)),
                _ => None,
            },
            None => None,
        }
    } else {
        None
    }
}

pub struct RunAcc {
    pub input: Option<Vec<u8>>,
    pub output: Option<Vec<u8>>,
    pub error: Option<Vec<u8>>,
}

impl View for RunAcc {
    type V = RunAccV;

    open spec fn view(&self) -> RunAccV {
        RunAccV {
            input: match &self.input {
                Some(v) => Some(v@),
                None => None,
            },
            output: match &self.output {
                Some(v) => Some(v@),
                None => None,
            },
            error: match &self.error {
                Some(v) => Some(v@),
                None => None,
            },
        }
    }
}

fn run_add(acc: RunAcc, k: &Vec<u8>, v: Vec<u8>) -> (r: Option<RunAcc>)
    ensures
        match r {
            Some(a2) => spec_run_add(acc@, k@, v@) == Some(a2@),
            None => spec_run_add(acc@, k@, v@) is None,
        },
{
    if check_input(k.as_slice()) {
        if acc.input.is_none() {
            Some(RunAcc { input: Some(v), output: acc.output, error: acc.error })
        } else {
            None
        }
    } else if check_output(k.as_slice()) {
        if acc.output.is_none() {
            Some(RunAcc { input: acc.input, output: Some(v), error: acc.error })
        } else {
            None
        }
    } else if check_error(k.as_slice()) {
        if acc.error.is_none() {
            Some(RunAcc { input: acc.input, output: acc.output, error: Some(v) })
        } else {
            None
        }
    } else {
        None
    }
}

fn run_members(s: &[u8], i: usize, acc: RunAcc, remaining: u8) -> (r: Option<(RunAcc, usize)>)
    requires
        i <= s@.len(),
    ensures
        match r {
            Some(t) => spec_run_members(s@, i as int, acc@, remaining as nat) == Some(
                (t.0@, t.1 as int),
            ) && t.1 <= s@.len(),
            None => spec_run_members(s@, i as int, acc@, remaining as nat) is None,
        },
    decreases remaining,
{
    match parse_member(s, i) {
        Some((k, v, p)) => match run_add(acc, &k, v) {
            Some(acc2) => {
                let q = skip_ws(s, p);
                if q < s.len() && s[q] == (',' as u8) {
                    if remaining > 0 {
                        run_members(s, skip_ws(s, q + 1), acc2, remaining - 1)
                    } else {
                        None
                    }
                } else if q < s.len() && s[q] == ('}' as u8) {
                    Some((acc2, q + 1))
                } else {
                    None
                }
            },
            None => None,
        },
        None => None,
    }
}

fn parse_run_body(s: &[u8], i: usize) -> (r: Option<(DisplayBytes, usize)>)
    requires
        i <= s@.len(),
    ensures
        match r {
            Some(t) => spec_parse_run_body(s@, i as int) == Some((t.0@, t.1 as int)) && t.1
                <= s@.len(),
            None => spec_parse_run_body(s@, i as int) is None,
        },
{
    if i < s.len() && s[i] == ('{' as u8) {
        match run_members(
            s,
            skip_ws(s, i + 1),
            RunAcc { input: None, output: None, error: None },
            2,
        ) {
            Some((acc, p)) => match (acc.output, acc.error) {
                (Some(o), Some(e)) => Some(
                    (DisplayBytes::Run { input: acc.input, output: o, error: e }, p),
                ),
                _ => None,
            },
            None => None,
        }
    } else {
        None
    }
}

fn close_display(s: &[u8], p: usize, d: DisplayBytes) -> (r: Option<(DisplayBytes, usize)>)
    requires
        p <= s@.len(),
    ensures
        match r {
            Some(t) => spec_close_display(s@, p as int, d@) == Some((t.0@, t.1 as int)) && t.1
                <= s@.len(),
            None => spec_close_display(s@, p as int, d@) is None,
        },
{
    let q = skip_ws(s, p);
    if q < s.len() && s[q] == ('}' as u8) {
        Some((d, q + 1))
    } else {
        None
    }
}

fn parse_display(s: &[u8], i: usize) -> (r: Option<(DisplayBytes, usize)>)
    requires
        i <= s@.len(),
    ensures
        match r {
            Some(t) => spec_parse_display(s@, i as int) == Some((t.0@, t.1 as int)) && t.1
                <= s@.len(),
            None => spec_parse_display(s@, i as int) is None,
        },
{
    if i < s.len() && s[i] == ('"' as u8) {
        match scan_content(s, i + 1) {
            Some((content, p)) => {
                if check_empty_tag(content.as_slice()) {
                    Some((DisplayBytes::Empty, p))
                } else {
                    None
                }
            },
            None => None,
        }
    } else if i < s.len() && s[i] == ('{' as u8) {
        match parse_string(s, skip_ws(s, i + 1)) {
            Some((tag, p)) => {
                let q = skip_ws(s, p);
                if q < s.len() && s[q] == (':' as u8) {
                    let v = skip_ws(s, q + 1);
                    if check_text_tag(tag.as_slice()) {
                        match parse_string(s, v) {
                            Some((content, p2)) => close_display(s, p2, DisplayBytes::Text(content)),
                            None => None,
                        }
                    } else if check_diff_tag(tag.as_slice()) {
                        match parse_diff_body(s, v) {
                            Some((d, p2)) => close_display(s, p2, d),
                            None => None,
                        }
                    } else if check_run_tag(tag.as_slice()) {
                        match parse_run_body(s, v) {
                            Some((d, p2)) => close_display(s, p2, d),
                            None => None,
                        }
                    } else {
                        None
                    }
                } else {
                    None
                }
            },
            None => None,
        }
    } else {
        None
    }
}

pub struct TcAcc {
    pub name: Option<Vec<u8>>,
    pub name_seen: bool,
    pub pass: Option<TestPassState>,
    pub display: Option<DisplayBytes>,
}

impl View for TcAcc {
    type V = TcAccV;

    open spec fn view(&self) -> TcAccV {
        TcAccV {
            name: match &self.name {
                Some(v) => Some(v@),
                None => None,
            },
            name_seen: self.name_seen,
            pass: self.pass,
            display: match &self.display {
                Some(d) => Some(d@),
                None => None,
            },
        }
    }
}

fn tc_member(s: &[u8], i: usize, acc: TcAcc) -> (r: Option<(TcAcc, usize)>)
    requires
        i <= s@.len(),
    ensures
        match r {
            Some(t) => spec_tc_member(s@, i as int, acc@) == Some((t.0@, t.1 as int)) && t.1
                <= s@.len(),
            None => spec_tc_member(s@, i as int, acc@) is None,
        },
{
    match parse_string(s, i) {
        Some((k, p)) => {
            let q = skip_ws(s, p);
            if q < s.len() && s[q] == (':' as u8) {
                let v = skip_ws(s, q + 1);
                if check_name(k.as_slice()) {
                    if !acc.name_seen {
                        match parse_string(s, v) {
                            Some((content, p2)) => Some(
                                (
                                    TcAcc {
                                        name: Some(content),
                                        name_seen: true,
                                        pass: acc.pass,
                                        display: acc.display,
                                    },
                                    p2,
                                ),
                            ),
                            None => match parse_null(s, v) {
                                Some(p2) => Some(
                                    (
                                        TcAcc {
                                            name: None,
                                            name_seen: true,
                                            pass: acc.pass,
                                            display: acc.display,
                                        },
                                        p2,
                                    ),
                                ),
                                None => None,
                            },
                        }
                    } else {
                        None
                    }
                } else if check_pass(k.as_slice()) {
                    if acc.pass.is_none() {
                        match parse_string(s, v) {
                            Some((content, p2)) => match pass_state_of(content.as_slice()) {
                                Some(ps) => Some(
                                    (
                                        TcAcc {
                                            name: acc.name,
                                            name_seen: acc.name_seen,
                                            pass: Some(ps),
                                            display: acc.display,
                                        },
                                        p2,
                                    ),
                                ),
                                None => None,
                            },
                            None => None,
                        }
                    } else {
                        None
                    }
                } else if check_result_display(k.as_slice()) {
                    if acc.display.is_none() {
                        match parse_display(s, v) {
                            Some((d, p2)) => Some(
                                (
                                    TcAcc {
                                        name: acc.name,
                                        name_seen: acc.name_seen,
                                        pass: acc.pass,
                                        display: Some(d),
                                    },
                                    p2,
                                ),
                            ),
                            None => None,
                        }
                    } else {
                        None
                    }
                } else {
                    None
                }
            } else {
                None
            }
        },
        None => None,
    }
}

fn tc_members(s: &[u8], i: usize, acc: TcAcc, remaining: u8) -> (r: Option<(TcAcc, usize)>)
    requires
        i <= s@.len(),
    ensures
        match r {
            Some(t) => spec_tc_members(s@, i as int, acc@, remaining as nat) == Some(
                (t.0@, t.1 as int),
            ) && t.1 <= s@.len(),
            None => spec_tc_members(s@, i as int, acc@, remaining as nat) is None,
        },
    decreases remaining,
{
    match tc_member(s, i, acc) {
        Some((acc2, p)) => {
            let q = skip_ws(s, p);
            if q < s.len() && s[q] == (',' as u8) {
                if remaining > 0 {
                    tc_members(s, skip_ws(s, q + 1), acc2, remaining - 1)
                } else {
                    None
                }
            } else if q < s.len() && s[q] == ('}' as u8) {
                Some((acc2, q + 1))
            } else {
                None
            }
        },
        None => None,
    }
}

/// Parses a whole line as a test-case record, yielding its raw form.
pub fn parse_case_bytes(line: &[u8]) -> (r: Option<CaseBytes>)
    ensures
        match r {
            Some(c) => spec_parse_test_case(line@) == Some(c@),
            None => spec_parse_test_case(line@) is None,
        },
{
    let i = skip_ws(line, 0);
    if i < line.len() && line[i] == ('{' as u8) {
        match tc_members(line, skip_ws(line, i + 1), TcAcc { name: None, name_seen: false, pass: None, display: None }, 2) {
            Some((acc, p)) => {
                if skip_ws(line, p) == line.len() {
                    match (acc.pass, acc.display) {
                        (Some(ps), Some(d)) => Some(CaseBytes { name: acc.name, pass: ps, display: d }),
                        _ => None,
                    }
                } else {
                    None
                }
            },
            None => None,
        }
    } else {
        None
    }
}

/// The final-verdict record of the protocol: `{"pass": <bool>}`.
#[derive(Clone, Copy, PartialEq, Eq, Structural, Debug)]
pub struct FinalVerdict {
    pub pass: bool,
}

/// Parses a whole line as a final-verdict record.
pub fn parse_verdict_line(line: &[u8]) -> (r: Option<FinalVerdict>)
    ensures
        match r {
            Some(v) => spec_parse_verdict(line@) == Some(v.pass),
            None => spec_parse_verdict(line@) is None,
        },
{
    let i = skip_ws(line, 0);
    if i < line.len() && line[i] == ('{' as u8) {
        match parse_string(line, skip_ws(line, i + 1)) {
            Some((k, p)) => {
                if check_pass(k.as_slice()) {
                    let q = skip_ws(line, p);
                    if q < line.len() && line[q] == (':' as u8) {
                        match parse_bool(line, skip_ws(line, q + 1)) {
                            Some((b, p2)) => {
                                let q2 = skip_ws(line, p2);
                                if q2 < line.len() && line[q2] == ('}' as u8) && skip_ws(
                                    line,
                                    q2 + 1,
                                ) == line.len() {
                                    Some(FinalVerdict { pass: b })
                                } else {
                                    None
                                }
                            },
                            None => None,
                        }
                    } else {
                        None
                    }
                } else {
                    None
                }
            },
            None => None,
        }
    } else {
        None
    }
}


// ---------------------------------------------------------------------------
// From raw records to stored test cases
// ---------------------------------------------------------------------------

/// Display content is truncated to [`crate::MAX_OUTPUT_LENGTH`] bytes before
/// storage.
pub open spec fn spec_trunc(b: Seq<u8>) -> Seq<u8> {
    if b.len() <= crate::MAX_OUTPUT_LENGTH {
        b
    } else {
        b.take(crate::MAX_OUTPUT_LENGTH as int)
    }
}

/// The stored text for one piece of display content: truncated, then decoded.
pub open spec fn spec_text_view(b: Seq<u8>) -> Seq<char> {
    crate::text::lossy_decode(spec_trunc(b))
}

/// The stored display payload for a raw one.
pub open spec fn spec_display_view(d: DisplayBytesV) -> crate::judge::ResultDisplayV {
    match d {
        DisplayBytesV::Empty => crate::judge::ResultDisplayV::Empty,
        DisplayBytesV::Text(t) => crate::judge::ResultDisplayV::Text(spec_text_view(t)),
        DisplayBytesV::Diff { output, expected } => crate::judge::ResultDisplayV::Diff {
            output: spec_text_view(output),
            expected: spec_text_view(expected),
        },
        DisplayBytesV::Run { input, output, error } => crate::judge::ResultDisplayV::Run {
            input: match input {
                Some(v) => Some(spec_text_view(v)),
                None => None,
            },
            output: spec_text_view(output),
            error: spec_text_view(error),
        },
    }
}

/// The stored test case for a raw record. Names are decoded without
/// truncation; only display content falls under the byte ceiling.
pub open spec fn spec_case_view(c: CaseBytesV) -> crate::judge::TestCaseV {
    crate::judge::TestCaseV {
        name: match c.name {
            Some(b) => Some(crate::text::lossy_decode(b)),
            None => None,
        },
        pass: c.pass,
        result_display: spec_display_view(c.display),
    }
}

fn text_of(b: Vec<u8>) -> (r: String)
    ensures
        r@ == spec_text_view(b@),
{
    let mut b = b;
    if b.len() > crate::MAX_OUTPUT_LENGTH {
        b.truncate(crate::MAX_OUTPUT_LENGTH);
    }
    crate::text::bytes_to_string_lossy(b.as_slice())
}

fn finish_display(d: DisplayBytes) -> (r: crate::judge::ResultDisplay)
    ensures
        r@ == spec_display_view(d@),
{
    match d {
        DisplayBytes::Empty => crate::judge::ResultDisplay::Empty,
        DisplayBytes::Text(t) => crate::judge::ResultDisplay::Text(text_of(t)),
        DisplayBytes::Diff { output, expected } => crate::judge::ResultDisplay::Diff {
            output: text_of(output),
            expected: text_of(expected),
        },
        DisplayBytes::Run { input, output, error } => crate::judge::ResultDisplay::Run {
            input: match input {
                Some(v) => Some(text_of(v)),
                None => None,
            },
            output: text_of(output),
            error: text_of(error),
        },
    }
}

fn finish_case(c: CaseBytes) -> (t: crate::judge::TestCase)
    ensures
        t@ == spec_case_view(c@),
{
    crate::judge::TestCase {
        name: match c.name {
            Some(v) => Some(crate::text::bytes_to_string_lossy(v.as_slice())),
            None => None,
        },
        pass: c.pass,
        result_display: finish_display(c.display),
    }
}

/// Parses a whole line as a test-case record, yielding the test case as it
/// will be stored: content truncated and decoded to text.
pub fn parse_test_case_line(line: &[u8]) -> (r: Option<crate::judge::TestCase>)
    ensures
        match r {
            Some(t) => spec_parse_test_case(line@) matches Some(c) && t@ == spec_case_view(c),
            None => spec_parse_test_case(line@) is None,
        },
{
    match parse_case_bytes(line) {
        Some(c) => Some(finish_case(c)),
        None => None,
    }
}

// ---------------------------------------------------------------------------
// Folding lines into the judge result
// ---------------------------------------------------------------------------

/// The informational test case a line that is no valid record degrades to.
pub open spec fn spec_debug_case(line: Seq<u8>) -> crate::judge::TestCaseV {
    crate::judge::TestCaseV {
        name: Some("Judge Debug Message"@),
        pass: TestPassState::Info,
        result_display: crate::judge::ResultDisplayV::Text(crate::text::lossy_decode(line)),
    }
}

/// How one line changes the accumulated judge result and the ceiling state.
///
/// An empty line changes nothing. Once the ceiling has been breached
/// (`overflowed`), every further record only pins the verdict at failing;
/// the stream is still drained, but nothing more is stored and no later
/// final-verdict record can turn the result passing. Below the ceiling, a
/// test-case record is appended while fewer than [`crate::MAX_TEST_CASES`]
/// cases are stored — the record that would exceed the ceiling is dropped,
/// the verdict is forced to fail, and the breach is remembered; a
/// final-verdict record overwrites the overall verdict, last one wins; any
/// other line counts as a test-case record holding the raw line as an
/// informational debug message, under the same ceiling.
pub open spec fn spec_apply(
    r: crate::judge::JudgeResultV,
    overflowed: bool,
    line: Seq<u8>,
) -> (crate::judge::JudgeResultV, bool) {
    if line.len() == 0 {
        (r, overflowed)
    } else if overflowed {
        (crate::judge::JudgeResultV { pass: false, test_cases: r.test_cases }, true)
    } else {
        match spec_parse_test_case(line) {
            Some(c) => if r.test_cases.len() < crate::MAX_TEST_CASES {
                (
                    crate::judge::JudgeResultV {
                        pass: r.pass,
                        test_cases: r.test_cases.push(spec_case_view(c)),
                    },
                    false,
                )
            } else {
                (crate::judge::JudgeResultV { pass: false, test_cases: r.test_cases }, true)
            },
            None => match spec_parse_verdict(line) {
                Some(b) => (
                    crate::judge::JudgeResultV { pass: b, test_cases: r.test_cases },
                    false,
                ),
                None => if r.test_cases.len() < crate::MAX_TEST_CASES {
                    (
                        crate::judge::JudgeResultV {
                            pass: r.pass,
                            test_cases: r.test_cases.push(spec_debug_case(line)),
                        },
                        false,
                    )
                } else {
                    (crate::judge::JudgeResultV { pass: false, test_cases: r.test_cases }, true)
                },
            },
        }
    }
}

/// Folds one line of judge output into the accumulated result, as
/// [`spec_apply`] states. `overflowed` carries the ceiling state from line
/// to line: it is set when a record is dropped at the ceiling, and once set
/// it keeps the verdict failing for good.
pub fn apply_to_judge_result(
    judge_result: &mut crate::judge::JudgeResult,
    overflowed: &mut bool,
    line: &[u8],
)
    ensures
        final(judge_result)@ == spec_apply(old(judge_result)@, *old(overflowed), line@).0,
        *final(overflowed) == spec_apply(old(judge_result)@, *old(overflowed), line@).1,
{
    proof {
        assert(judge_result.test_cases@.map_values(|t: crate::judge::TestCase| t@).len()
            == judge_result.test_cases@.len());
    }
    if line.len() == 0 {
        return ;
    }
    if *overflowed {
        judge_result.pass = false;
        return ;
    }
    match parse_test_case_line(line) {
        Some(tc) => {
            if judge_result.test_cases.len() < crate::MAX_TEST_CASES {
                let ghost prev = judge_result.test_cases@.map_values(
                    |t: crate::judge::TestCase| t@,
                );
                let ghost tcv = tc@;
                judge_result.test_cases.push(tc);
                proof {
                    assert(judge_result.test_cases@.map_values(|t: crate::judge::TestCase| t@)
                        =~= prev.push(tcv));
                }
            } else {
                judge_result.pass = false;
                *overflowed = true;
            }
        },
        None => {
            match parse_verdict_line(line) {
                Some(v) => {
                    judge_result.pass = v.pass;
                },
                None => {
                    if judge_result.test_cases.len() < crate::MAX_TEST_CASES {
                        let text = crate::text::bytes_to_string_lossy(line);
                        let tc = crate::judge::TestCase {
                            name: Some("Judge Debug Message".to_owned()),
                            pass: TestPassState::Info,
                            result_display: crate::judge::ResultDisplay::Text(text),
                        };
                        let ghost prev = judge_result.test_cases@.map_values(
                            |t: crate::judge::TestCase| t@,
                        );
                        let ghost tcv = tc@;
                        proof {
                            assert(tcv == spec_debug_case(line@));
                        }
                        judge_result.test_cases.push(tc);
                        proof {
                            assert(judge_result.test_cases@.map_values(
                                |t: crate::judge::TestCase| t@,
                            ) =~= prev.push(tcv));
                        }
                    } else {
                        judge_result.pass = false;
                        *overflowed = true;
                    }
                },
            }
        },
    }
}

// ---------------------------------------------------------------------------
// The byte-stream state machine
// ---------------------------------------------------------------------------

/// Mathematical state of the stream folder: the buffered partial line, the
/// result accumulated from the completed lines, and whether the test-case
/// ceiling has been breached.
pub ghost struct StreamStateV {
    pub buf: Seq<u8>,
    pub result: crate::judge::JudgeResultV,
    pub overflowed: bool,
}

/// The stream state after one completed line.
pub open spec fn spec_fold_line(st: StreamStateV) -> StreamStateV {
    StreamStateV {
        buf: Seq::empty(),
        result: spec_apply(st.result, st.overflowed, st.buf).0,
        overflowed: spec_apply(st.result, st.overflowed, st.buf).1,
    }
}

/// Feeding a chunk of bytes: every byte either extends the buffered partial
/// line or, when it is a line feed, completes that line and folds it into the
/// result.
pub open spec fn spec_feed(st: StreamStateV, data: Seq<u8>) -> StreamStateV
    decreases data.len(),
{
    if data.len() == 0 {
        st
    } else if data[0] == ('\n' as u8) {
        spec_feed(spec_fold_line(st), data.drop_first())
    } else {
        spec_feed(
            StreamStateV { buf: st.buf.push(data[0]), result: st.result, overflowed: st.overflowed },
            data.drop_first(),
        )
    }
}

/// The state the stream folder starts from.
pub open spec fn spec_stream_init() -> StreamStateV {
    StreamStateV {
        buf: Seq::empty(),
        result: crate::judge::JudgeResultV { pass: false, test_cases: Seq::empty() },
        overflowed: false,
    }
}

/// The judge result a whole output stream folds to. A trailing line without a
/// line feed stays in the buffer and is deliberately never folded in.
pub open spec fn spec_stream_result(stream: Seq<u8>) -> crate::judge::JudgeResultV {
    spec_feed(spec_stream_init(), stream).result
}

/// Feeding bytes is insensitive to how the stream is cut into chunks: feeding
/// two chunks one after the other folds exactly the lines of their
/// concatenation.
pub proof fn lemma_feed_concat(st: StreamStateV, a: Seq<u8>, b: Seq<u8>)
    ensures
        spec_feed(spec_feed(st, a), b) == spec_feed(st, a + b),
    decreases a.len(),
{
    if a.len() == 0 {
        assert(a + b =~= b);
    } else {
        assert((a + b).drop_first() =~= a.drop_first() + b);
        assert((a + b)[0] == a[0]);
        if a[0] == ('\n' as u8) {
            lemma_feed_concat(spec_fold_line(st), a.drop_first(), b);
        } else {
            lemma_feed_concat(
                StreamStateV {
                    buf: st.buf.push(a[0]),
                    result: st.result,
                    overflowed: st.overflowed,
                },
                a.drop_first(),
                b,
            );
        }
    }
}

/// Incremental folder for the judge's output stream. Chunks of bytes go in as
/// they arrive; lines are reassembled across chunk boundaries and folded into
/// the result one at a time.
pub struct JudgeStream {
    pub line_buffer: Vec<u8>,
    pub result: crate::judge::JudgeResult,
    /// Whether the test-case ceiling has been breached; once it has, the
    /// result stays failing however the stream goes on.
    pub overflowed: bool,
}

impl View for JudgeStream {
    type V = StreamStateV;

    open spec fn view(&self) -> StreamStateV {
        StreamStateV {
            buf: self.line_buffer@,
            result: self.result@,
            overflowed: self.overflowed,
        }
    }
}

impl JudgeStream {
    /// A fresh folder with nothing buffered and a failing, empty result.
    pub fn new() -> (s: JudgeStream)
        ensures
            s@ == spec_stream_init(),
    {
        let s = JudgeStream {
            line_buffer: Vec::new(),
            result: crate::judge::JudgeResult::empty(),
            overflowed: false,
        };
        proof {
            assert(s@.buf =~= Seq::<u8>::empty());
        }
        s
    }

    /// Consumes one chunk of the stream, reassembling lines across chunk
    /// boundaries.
    pub fn feed(&mut self, chunk: &[u8])
        ensures
            final(self)@ == spec_feed(old(self)@, chunk@),
    {
        let mut k: usize = 0;
        proof {
            assert(chunk@.skip(0) =~= chunk@);
        }
        while k < chunk.len()
            invariant
                k <= chunk@.len(),
                spec_feed(old(self)@, chunk@) == spec_feed(self@, chunk@.skip(k as int)),
            decreases chunk@.len() - k,
        {
            let ghost pre = self@;
            let ghost rest = chunk@.skip(k as int);
            let b = chunk[k];
            proof {
                assert(rest[0] == chunk@[k as int]);
                assert(rest.drop_first() =~= chunk@.skip(k as int + 1));
            }
            if b == ('\n' as u8) {
                apply_to_judge_result(
                    &mut self.result,
                    &mut self.overflowed,
                    self.line_buffer.as_slice(),
                );
                self.line_buffer.clear();
                proof {
                    assert(self@.buf =~= Seq::<u8>::empty());
                    assert(spec_feed(pre, rest) == spec_feed(self@, rest.drop_first()));
                }
            } else {
                self.line_buffer.push(b);
                proof {
                    assert(spec_feed(pre, rest) == spec_feed(self@, rest.drop_first()));
                }
            }
            k = k + 1;
        }
        proof {
            assert(chunk@.skip(chunk@.len() as int) =~= Seq::<u8>::empty());
        }
    }

    /// Ends the stream and hands out the folded result. A trailing partial
    /// line without a line feed is deliberately not folded in.
    pub fn finish(self) -> (r: crate::judge::JudgeResult)
        ensures
            r@ == self@.result,
    {
        self.result
    }
}


// ---------------------------------------------------------------------------
// Laws of the protocol
// ---------------------------------------------------------------------------

/// True when feeding `data` from state `st` completes some line that is a
/// final-verdict record reading `true`, before the ceiling is breached.
pub open spec fn feed_sees_true_verdict(st: StreamStateV, data: Seq<u8>) -> bool
    decreases data.len(),
{
    if data.len() == 0 {
        false
    } else if data[0] == ('\n' as u8) {
        (!st.overflowed && spec_parse_verdict(st.buf) == Some(true)) || feed_sees_true_verdict(
            spec_fold_line(st),
            data.drop_first(),
        )
    } else {
        feed_sees_true_verdict(
            StreamStateV { buf: st.buf.push(data[0]), result: st.result, overflowed: st.overflowed },
            data.drop_first(),
        )
    }
}

/// Folding one line can only turn the overall verdict to passing through a
/// final-verdict record that reads `true`, and only while the ceiling has
/// not been breached.
pub proof fn lemma_apply_pass_source(r: crate::judge::JudgeResultV, overflowed: bool, line: Seq<u8>)
    ensures
        spec_apply(r, overflowed, line).0.pass ==> r.pass || (!overflowed && spec_parse_verdict(
            line,
        ) == Some(true)),
{
}

/// A stream folds to a passing overall verdict only if it completed a
/// final-verdict record reading `true` before any ceiling breach (or the
/// verdict already passed when feeding began). In particular, a run whose
/// judge never reported a final verdict is reported as failing.
pub proof fn lemma_pass_needs_true_verdict(st: StreamStateV, data: Seq<u8>)
    ensures
        spec_feed(st, data).result.pass ==> st.result.pass || feed_sees_true_verdict(st, data),
    decreases data.len(),
{
    if data.len() == 0 {
    } else if data[0] == ('\n' as u8) {
        lemma_pass_needs_true_verdict(spec_fold_line(st), data.drop_first());
        lemma_apply_pass_source(st.result, st.overflowed, st.buf);
    } else {
        lemma_pass_needs_true_verdict(
            StreamStateV { buf: st.buf.push(data[0]), result: st.result, overflowed: st.overflowed },
            data.drop_first(),
        );
    }
}

/// As [`lemma_pass_needs_true_verdict`], stated for a whole stream folded
/// from the initial state.
pub proof fn lemma_stream_pass_needs_true_verdict(stream: Seq<u8>)
    ensures
        spec_stream_result(stream).pass ==> feed_sees_true_verdict(spec_stream_init(), stream),
{
    lemma_pass_needs_true_verdict(spec_stream_init(), stream);
}

/// Folding a line never pushes the stored case count past the ceiling.
pub proof fn lemma_apply_count(r: crate::judge::JudgeResultV, overflowed: bool, line: Seq<u8>)
    ensures
        r.test_cases.len() <= crate::MAX_TEST_CASES ==> spec_apply(
            r,
            overflowed,
            line,
        ).0.test_cases.len() <= crate::MAX_TEST_CASES,
        spec_apply(r, overflowed, line).0.test_cases.len() >= r.test_cases.len(),
{
}

/// However much output the judge produces, and however it is chunked, at most
/// [`crate::MAX_TEST_CASES`] test cases are ever stored.
pub proof fn lemma_feed_count(st: StreamStateV, data: Seq<u8>)
    ensures
        st.result.test_cases.len() <= crate::MAX_TEST_CASES ==> spec_feed(
            st,
            data,
        ).result.test_cases.len() <= crate::MAX_TEST_CASES,
    decreases data.len(),
{
    if data.len() == 0 {
    } else if data[0] == ('\n' as u8) {
        lemma_apply_count(st.result, st.overflowed, st.buf);
        lemma_feed_count(spec_fold_line(st), data.drop_first());
    } else {
        lemma_feed_count(
            StreamStateV { buf: st.buf.push(data[0]), result: st.result, overflowed: st.overflowed },
            data.drop_first(),
        );
    }
}

/// As [`lemma_feed_count`], for a whole stream: no stream folds to more than
/// the ceiling of stored test cases.
pub proof fn lemma_stream_count(stream: Seq<u8>)
    ensures
        spec_stream_result(stream).test_cases.len() <= crate::MAX_TEST_CASES,
{
    lemma_feed_count(spec_stream_init(), stream);
}

/// A ceiling breach is permanent, and from then on the verdict stays at
/// failing: folding a line keeps the breach, and a breached state whose
/// verdict fails can never fold to a passing one — in particular no later
/// final-verdict record undoes the failure.
pub proof fn lemma_apply_overflow_sticky(
    r: crate::judge::JudgeResultV,
    overflowed: bool,
    line: Seq<u8>,
)
    ensures
        overflowed ==> spec_apply(r, overflowed, line).1,
        spec_apply(r, overflowed, line).1 && !spec_apply(r, overflowed, line).0.pass ==> (
        forall|line2: Seq<u8>|
            spec_apply(spec_apply(r, overflowed, line).0, true, line2).1 && !spec_apply(
                spec_apply(r, overflowed, line).0,
                true,
                line2,
            ).0.pass),
{
}

/// As [`lemma_apply_overflow_sticky`], along a whole feed: a breached state
/// with a failing verdict stays breached and failing, however much more of
/// the stream follows.
pub proof fn lemma_feed_overflow_sticky(st: StreamStateV, data: Seq<u8>)
    requires
        st.overflowed,
        !st.result.pass,
    ensures
        spec_feed(st, data).overflowed,
        !spec_feed(st, data).result.pass,
    decreases data.len(),
{
    if data.len() == 0 {
    } else if data[0] == ('\n' as u8) {
        lemma_feed_overflow_sticky(spec_fold_line(st), data.drop_first());
    } else {
        lemma_feed_overflow_sticky(
            StreamStateV { buf: st.buf.push(data[0]), result: st.result, overflowed: st.overflowed },
            data.drop_first(),
        );
    }
}

/// Whenever a stream's fold ends in a breached state, its verdict is
/// failing: a judge that overran the ceiling can never end passing.
pub proof fn lemma_feed_overflow_fails(st: StreamStateV, data: Seq<u8>)
    requires
        st.overflowed ==> !st.result.pass,
    ensures
        spec_feed(st, data).overflowed ==> !spec_feed(st, data).result.pass,
    decreases data.len(),
{
    if data.len() == 0 {
    } else if data[0] == ('\n' as u8) {
        lemma_feed_overflow_fails(spec_fold_line(st), data.drop_first());
    } else {
        lemma_feed_overflow_fails(
            StreamStateV { buf: st.buf.push(data[0]), result: st.result, overflowed: st.overflowed },
            data.drop_first(),
        );
    }
}

/// As [`lemma_feed_overflow_fails`], for a whole stream folded from the
/// initial state.
pub proof fn lemma_stream_overflow_fails(stream: Seq<u8>)
    ensures
        spec_feed(spec_stream_init(), stream).overflowed ==> !spec_stream_result(stream).pass,
{
    lemma_feed_overflow_fails(spec_stream_init(), stream);
}

} // verus!
