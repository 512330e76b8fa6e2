//! Percent-decoding of URL components (`%XX` escapes and `+` for space).
use vstd::prelude::*;
use vstd::utf8::*;
use vstd::string::StringSliceAdditionalSpecFns;
use crate::text::{lossy_text, lossy_string};

verus! {

broadcast use {vstd::utf8::encode_utf8_decode_utf8, vstd::utf8::encode_utf8_valid_utf8};

/// The value of one hexadecimal digit, as `char::to_digit(16)` reads it.
pub open spec fn hex_digit_value(c: u8) -> Option<u8> {
    if 0x30 <= c <= 0x39 {
        Some((c - 0x30) as u8)
    } else if 0x61 <= c <= 0x66 {
        Some((c - 0x61 + 10) as u8)
    } else if 0x41 <= c <= 0x46 {
        Some((c - 0x41 + 10) as u8)
    } else {
        None
    }
}

/// What `u8::from_str_radix(.., 16)` reads from the two characters after a
/// `%`: two hex digits, or a `+` sign followed by one hex digit.
pub open spec fn hex_pair_value(a: u8, b: u8) -> Option<u8> {
    if a == 0x2b {
        hex_digit_value(b)
    } else {
        match (hex_digit_value(a), hex_digit_value(b)) {
            (Some(x), Some(y)) => Some((x * 16 + y) as u8),
            _ => None,
        }
    }
}

/// The bytes that URL decoding makes of `b`: a `%` followed by two
/// characters that read as a hex number becomes that byte, `+` becomes a
/// space, and every other byte stays as it is.
pub open spec fn url_decode_bytes(b: Seq<u8>) -> Seq<u8>
    decreases b.len(),
{
    if b.len() == 0 {
        seq![]
    } else if b[0] == 0x25 && b.len() >= 3 && hex_pair_value(b[1], b[2]) is Some {
        seq![hex_pair_value(b[1], b[2]).unwrap()] + url_decode_bytes(b.skip(3))
    } else if b[0] == 0x2b {
        seq![0x20u8] + url_decode_bytes(b.drop_first())
    } else {
        seq![b[0]] + url_decode_bytes(b.drop_first())
    }
}

/// Decoding reads the two characters after each `%` that has two more
/// bytes behind it as a text slice; the slice must end on a character
/// boundary of the UTF-8 input.
pub open spec fn percent_cuts_on_boundaries(b: Seq<u8>) -> bool {
    forall|i: int| 0 <= i && i + 3 < b.len() && b[i] == 0x25 ==> !is_continuation_byte(#[trigger] b[i + 3])
}

/// Bytes that URL decoding leaves alone: no `%` and no `+`.
pub open spec fn plain_url_bytes(b: Seq<u8>) -> bool {
    forall|i: int| 0 <= i < b.len() ==> #[trigger] b[i] != 0x25 && b[i] != 0x2b
}

/// The text that `urldecode` returns for a text whose UTF-8 bytes are `b`.
pub open spec fn decoded_text(b: Seq<u8>) -> Seq<char> {
    lossy_text(url_decode_bytes(b))
}

fn hex_digit(c: u8) -> (r: Option<u8>)
    ensures
        r == hex_digit_value(c),
{
    if 0x30 <= c && c <= 0x39 {
        Some(c - 0x30)
    } else if 0x61 <= c && c <= 0x66 {
        Some(c - 0x61 + 10)
    } else if 0x41 <= c && c <= 0x46 {
        Some(c - 0x41 + 10)
    } else {
        None
    }
}

fn hex_pair(a: u8, b: u8) -> (r: Option<u8>)
    ensures
        r == hex_pair_value(a, b),
{
    if a == 0x2b {
        hex_digit(b)
    } else {
        match (hex_digit(a), hex_digit(b)) {
            (Some(x), Some(y)) => Some(x * 16 + y),
            _ => None,
        }
    }
}

/// URL-decodes a byte string.
pub fn urldecode_bytes(b: &[u8]) -> (r: Vec<u8>)
    ensures
        r@ == url_decode_bytes(b@),
{
    let mut out: Vec<u8> = Vec::new();
    let mut i: usize = 0;
    assert(b@.skip(0) =~= b@);
    assert(out@ + b@ =~= b@);
    while i < b.len()
        invariant
            0 <= i <= b.len(),
            url_decode_bytes(b@) == out@ + url_decode_bytes(b@.skip(i as int)),
        decreases b.len() - i,
    {
        let ghost rest = b@.skip(i as int);
        let ghost before = out@;
        assert(rest[0] == b@[i as int]);
        assert(rest.drop_first() =~= b@.skip(i + 1));
        let mut decoded: Option<u8> = None;
        if b[i] == 0x25 && b.len() - i > 2 {
            assert(rest[1] == b@[i + 1] && rest[2] == b@[i + 2]);
            decoded = hex_pair(b[i + 1], b[i + 2]);
        }
        match decoded {
            Some(v) => {
                assert(rest.skip(3) =~= b@.skip(i + 3));
                out.push(v);
                assert(out@ =~= before + seq![v]);
                i = i + 3;
            },
            None => {
                if b[i] == 0x2b {
                    out.push(0x20);
                    assert(out@ =~= before + seq![0x20u8]);
                } else {
                    out.push(b[i]);
                    assert(out@ =~= before + seq![b@[i as int]]);
                }
                i = i + 1;
            },
        }
    }
    assert(b@.skip(i as int) =~= Seq::<u8>::empty());
    assert(out@ =~= out@ + Seq::<u8>::empty());
    out
}

/// Plain bytes decode to themselves.
pub proof fn lemma_plain_decodes_to_itself(b: Seq<u8>)
    requires
        plain_url_bytes(b),
    ensures
        url_decode_bytes(b) == b,
    decreases b.len(),
{
    if b.len() > 0 {
        let t = b.drop_first();
        assert forall|i: int| 0 <= i < t.len() implies #[trigger] t[i] != 0x25 && t[i] != 0x2b by {
            assert(t[i] == b[i + 1]);
        }
        lemma_plain_decodes_to_itself(t);
        assert(b =~= seq![b[0]] + t);
    }
}

/// Whether `urldecode` can decode a text with UTF-8 bytes `b` (every `%`
/// with three bytes after it is followed, three bytes on, by the start of
/// a character).
pub fn can_urldecode(b: &[u8]) -> (r: bool)
    ensures
        r == percent_cuts_on_boundaries(b@),
{
    let mut i: usize = 0;
    while i < b.len()
        invariant
            0 <= i <= b@.len(),
            forall|k: int| 0 <= k < i && k + 3 < b@.len() && b@[k] == 0x25 ==> !is_continuation_byte(#[trigger] b@[k + 3]),
        decreases b.len() - i,
    {
        if b[i] == 0x25 && b.len() - i > 3 {
            let c = b[i + 3];
            if 0x80 <= c && c <= 0xbf {
                assert(is_continuation_byte(b@[i + 3]));
                return false;
            }
        }
        i = i + 1;
    }
    true
}

/// Decodes a URL component: `%XX` escapes become bytes, `+` becomes a space,
/// and the bytes are read back as UTF-8, invalid sequences replaced.
/// A component without `%` and `+` comes back unchanged.
pub fn urldecode(s: &str) -> (r: String)
    requires
        percent_cuts_on_boundaries(s.spec_bytes()),
    ensures
        r@ == decoded_text(s.spec_bytes()),
        plain_url_bytes(s.spec_bytes()) ==> r@ == s@,
{
    let bytes = urldecode_bytes(s.as_bytes());
    proof {
        if plain_url_bytes(s.spec_bytes()) {
            lemma_plain_decodes_to_itself(s.spec_bytes());
        }
    }
    lossy_string(bytes.as_slice())
}

/// Hands a query parameter back as it is, without decoding.
pub fn urldecode_noop(s: &str) -> (r: &str)
    ensures
        r == s,
{
    s
}

} // verus!
