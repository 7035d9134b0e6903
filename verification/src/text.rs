//! Byte-to-text conversion shared by the protocol parser and the renderers.

use vstd::prelude::*;

verus! {

/// The character sequence that lossy UTF-8 decoding produces for a given byte
/// sequence. Invalid sequences are replaced by U+FFFD, so the result is a
/// function of the bytes alone.
pub uninterp spec fn lossy_decode(bytes: Seq<u8>) -> Seq<char>;

/// Relies on `String::from_utf8_lossy`: valid UTF-8 is converted losslessly,
/// and the result depends on the bytes alone.
#[verifier::external_body]
pub(crate) fn bytes_to_string_lossy(bytes: &[u8]) -> (r: String)
    ensures
        r@ == lossy_decode(bytes@),
        vstd::utf8::valid_utf8(bytes@) ==> r@ == vstd::utf8::decode_utf8(bytes@),
{
    String::from_utf8_lossy(bytes).into_owned()
}


/// A sequence of ASCII bytes read as characters.
pub open spec fn spec_ascii_chars(b: Seq<u8>) -> Seq<char> {
    Seq::new(b.len(), |i: int| b[i] as char)
}

/// ASCII bytes are valid UTF-8 and decode to themselves.
pub proof fn lemma_ascii_decode(b: Seq<u8>)
    requires
        forall|i: int| 0 <= i < b.len() ==> b[i] < 0x80,
    ensures
        vstd::utf8::valid_utf8(b),
        vstd::utf8::decode_utf8(b) == spec_ascii_chars(b),
    decreases b.len(),
{
    if b.len() > 0 {
        assert(vstd::utf8::is_leading_byte_width_1(b[0]));
        assert(vstd::utf8::length_of_first_scalar(b) == 1);
        assert(vstd::utf8::valid_first_scalar(b));
        let rest = vstd::utf8::pop_first_scalar(b);
        assert(rest =~= b.drop_first());
        lemma_ascii_decode(b.drop_first());
        let x = b[0];
        assert(x < 0x80 ==> (x & 0x7F) == x) by (bit_vector);
        assert(vstd::utf8::decode_first_scalar(b) == x as u32);
        assert((x as u32) as char == x as char);
        assert(vstd::utf8::decode_utf8(b) =~= spec_ascii_chars(b));
    } else {
        assert(vstd::utf8::decode_utf8(b) =~= spec_ascii_chars(b));
    }
}

// ---------------------------------------------------------------------------
// Decimal rendering
// ---------------------------------------------------------------------------

/// The decimal digits of `n`, as ASCII bytes, most significant first.
pub open spec fn spec_u64_digits(n: nat) -> Seq<u8>
    decreases n,
{
    if n < 10 {
        seq![(('0' as u8) + n) as u8]
    } else {
        spec_u64_digits(n / 10) + seq![(('0' as u8) + (n % 10)) as u8]
    }
}

/// The decimal rendering of an unsigned number.
pub open spec fn spec_u64_string(n: nat) -> Seq<char> {
    spec_ascii_chars(spec_u64_digits(n))
}

/// The decimal rendering of a signed number: a minus sign when negative.
pub open spec fn spec_i64_string(n: int) -> Seq<char> {
    if n < 0 {
        seq!['-'] + spec_u64_string((-n) as nat)
    } else {
        spec_u64_string(n as nat)
    }
}

pub proof fn lemma_u64_digits_ascii(n: nat)
    ensures
        forall|i: int| 0 <= i < spec_u64_digits(n).len() ==> spec_u64_digits(n)[i] < 0x80,
    decreases n,
{
    if n >= 10 {
        lemma_u64_digits_ascii(n / 10);
        assert forall|i: int| 0 <= i < spec_u64_digits(n).len() implies spec_u64_digits(n)[i]
            < 0x80 by {
            if i < spec_u64_digits(n / 10).len() {
                assert(spec_u64_digits(n)[i] == spec_u64_digits(n / 10)[i]);
            }
        }
    }
}

fn push_u64_digits(out: &mut Vec<u8>, n: u64)
    ensures
        final(out)@ == old(out)@ + spec_u64_digits(n as nat),
    decreases n,
{
    if n < 10 {
        out.push(('0' as u8) + (n as u8));
        proof {
            assert(out@ =~= old(out)@ + spec_u64_digits(n as nat));
        }
    } else {
        push_u64_digits(out, n / 10);
        let ghost mid = out@;
        out.push(('0' as u8) + ((n % 10) as u8));
        proof {
            assert(out@ =~= mid + seq![(('0' as u8) + ((n as nat) % 10)) as u8]);
            assert(out@ =~= old(out)@ + (spec_u64_digits((n as nat) / 10) + seq![(('0' as u8) + ((
            n as nat) % 10)) as u8]));
        }
    }
}

/// Renders an unsigned number in decimal.
pub fn u64_to_string(n: u64) -> (r: String)
    ensures
        r@ == spec_u64_string(n as nat),
{
    let mut out: Vec<u8> = Vec::new();
    push_u64_digits(&mut out, n);
    proof {
        assert(Seq::<u8>::empty() + spec_u64_digits(n as nat) =~= spec_u64_digits(n as nat));
        lemma_u64_digits_ascii(n as nat);
        lemma_ascii_decode(out@);
    }
    bytes_to_string_lossy(out.as_slice())
}

/// Renders a signed number in decimal.
pub fn i64_to_string(n: i64) -> (r: String)
    ensures
        r@ == spec_i64_string(n as int),
{
    if n < 0 {
        let mut out = String::new();
        out.append("-");
        let m: u64 = if n == i64::MIN {
            9223372036854775808u64
        } else {
            (-n) as u64
        };
        let d = u64_to_string(m);
        out.append(d.as_str());
        proof {
            reveal_strlit("-");
            assert(out@ =~= seq!['-'] + spec_u64_string(m as nat));
        }
        out
    } else {
        u64_to_string(n as u64)
    }
}

/// Renders a signed 32-bit number in decimal.
pub fn i32_to_string(n: i32) -> (r: String)
    ensures
        r@ == spec_i64_string(n as int),
{
    i64_to_string(n as i64)
}

// ---------------------------------------------------------------------------
// HTML escaping
// ---------------------------------------------------------------------------

/// How one character is written in escaped HTML.
pub open spec fn spec_escape_html_char(c: char) -> Seq<char> {
    if c == '&' {
        "&amp;"@
    } else if c == '<' {
        "&lt;"@
    } else if c == '>' {
        "&gt;"@
    } else if c == '"' {
        "&quot;"@
    } else if c == '\'' {
        "&#x27;"@
    } else if c == '/' {
        "&#x2F;"@
    } else {
        seq![c]
    }
}

/// `s` written in escaped HTML.
pub open spec fn spec_escape_html(s: Seq<char>) -> Seq<char>
    decreases s.len(),
{
    if s.len() == 0 {
        Seq::empty()
    } else {
        spec_escape_html(s.drop_last()) + spec_escape_html_char(s.last())
    }
}

/// Escapes text for inclusion in an HTML body or attribute.
pub fn escape_html(s: &str) -> (r: String)
    ensures
        r@ == spec_escape_html(s@),
{
    let n = s.unicode_len();
    let mut out = String::new();
    let mut i: usize = 0;
    proof {
        assert(s@.take(0) =~= Seq::<char>::empty());
    }
    while i < n
        invariant
            i <= n,
            n == s@.len(),
            out@ == spec_escape_html(s@.take(i as int)),
        decreases n - i,
    {
        let ghost pre = out@;
        let c = s.get_char(i);
        if c == '&' {
            out.append("&amp;");
        } else if c == '<' {
            out.append("&lt;");
        } else if c == '>' {
            out.append("&gt;");
        } else if c == '"' {
            out.append("&quot;");
        } else if c == '\'' {
            out.append("&#x27;");
        } else if c == '/' {
            out.append("&#x2F;");
        } else {
            let piece = s.substring_char(i, i + 1);
            out.append(piece);
            proof {
                assert(piece@ =~= seq![c]);
            }
        }
        proof {
            assert(out@ =~= pre + spec_escape_html_char(c));
            let t = s@.take(i as int + 1);
            assert(t.drop_last() =~= s@.take(i as int));
            assert(t.last() == c);
        }
        i = i + 1;
    }
    proof {
        assert(s@.take(n as int) =~= s@);
    }
    out
}

} // verus!
