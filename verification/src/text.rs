//! Byte-level views of UTF-8 text: searching and cutting at ASCII
//! separators, and the few `str` operations of std that the rest of the
//! library relies on.
use vstd::prelude::*;
use vstd::utf8::*;
use vstd::string::StringSliceAdditionalSpecFns;

verus! {

broadcast use {vstd::utf8::encode_utf8_decode_utf8, vstd::utf8::encode_utf8_valid_utf8};

/// The pieces of a text between occurrences of an ASCII separator.
pub open spec fn split_text(s: Seq<char>, sep: u8) -> Seq<Seq<char>> {
    split_bytes(encode_utf8(s), sep).map_values(|b: Seq<u8>| decode_utf8(b))
}

/// Position of the first `c` in `b`, if any.
pub open spec fn find_byte(b: Seq<u8>, c: u8) -> Option<int>
    decreases b.len(),
{
    if b.len() == 0 {
        None
    } else if b[0] == c {
        Some(0)
    } else {
        match find_byte(b.drop_first(), c) {
            Some(i) => Some(i + 1),
            None => None,
        }
    }
}

/// What `find_byte` returns: the least position holding `c`, or `None`
/// when no position does.
pub proof fn lemma_find_byte(b: Seq<u8>, c: u8)
    ensures
        match find_byte(b, c) {
            Some(i) => 0 <= i < b.len() && b[i] == c && forall|k: int| 0 <= k < i ==> b[k] != c,
            None => forall|k: int| 0 <= k < b.len() ==> b[k] != c,
        },
    decreases b.len(),
{
    if b.len() > 0 && b[0] != c {
        let t = b.drop_first();
        lemma_find_byte(t, c);
        assert forall|k: int| 1 <= k < b.len() implies b[k] == t[k - 1] by {}
    }
}

/// A position that holds `c` with no `c` before it (or the end, with no
/// `c` at all) is what `find_byte` returns.
pub proof fn lemma_find_byte_at(b: Seq<u8>, c: u8, j: int)
    requires
        0 <= j <= b.len(),
        forall|k: int| 0 <= k < j ==> b[k] != c,
        j < b.len() ==> b[j] == c,
    ensures
        find_byte(b, c) == (if j < b.len() { Some(j) } else { None::<int> }),
{
    lemma_find_byte(b, c);
}

/// The pieces that `str::split` yields for an ASCII separator, as bytes.
/// There is always at least one piece.
pub open spec fn split_bytes(b: Seq<u8>, sep: u8) -> Seq<Seq<u8>>
    decreases b.len(),
{
    match find_byte(b, sep) {
        Some(i) => if 0 <= i < b.len() {
            seq![b.take(i)] + split_bytes(b.skip(i + 1), sep)
        } else {
            seq![b]
        },
        None => seq![b],
    }
}

/// Position of the first `c` in `b`.
pub fn find_byte_in(b: &[u8], c: u8) -> (r: Option<usize>)
    ensures
        match r {
            Some(i) => find_byte(b@, c) == Some(i as int),
            None => find_byte(b@, c) == None::<int>,
        },
{
    let mut i: usize = 0;
    while i < b.len()
        invariant
            0 <= i <= b.len(),
            forall|k: int| 0 <= k < i ==> b@[k] != c,
        decreases b.len() - i,
    {
        if b[i] == c {
            proof {
                lemma_find_byte_at(b@, c, i as int);
            }
            return Some(i);
        }
        i = i + 1;
    }
    proof {
        lemma_find_byte_at(b@, c, i as int);
    }
    None
}

/// In valid UTF-8, an ASCII byte starts a character and the byte after it
/// starts the next one (or is the end).
pub proof fn lemma_ascii_boundaries(b: Seq<u8>, j: int)
    requires
        valid_utf8(b),
        0 <= j < b.len(),
        b[j] < 0x80,
    ensures
        is_char_boundary(b, j),
        is_char_boundary(b, j + 1),
    decreases b.len(),
{
    is_char_boundary_iff_not_is_continuation_byte(b, j);
    let n = length_of_first_scalar(b);
    let rest = pop_first_scalar(b);
    reveal_with_fuel(is_char_boundary, 2);
    reveal_with_fuel(valid_utf8, 2);
    assert(valid_utf8(rest));
    if j == 0 {
        assert(n == 1);
        assert(is_char_boundary(rest, 0));
    } else {
        assert(j >= n);
        lemma_ascii_boundaries(rest, j - n);
        assert(rest.len() == b.len() - n);
        assert(rest[j - n] == b[j]);
    }
}

/// Cuts `s` around the ASCII byte at position `j`: the text before it and
/// the text after it.
pub fn cut_around<'a>(s: &'a str, j: usize) -> (r: (&'a str, &'a str))
    requires
        j < s.spec_bytes().len(),
        s.spec_bytes()[j as int] < 0x80,
    ensures
        r.0.spec_bytes() == s.spec_bytes().take(j as int),
        r.1.spec_bytes() == s.spec_bytes().skip(j + 1),
{
    let ghost b = s.spec_bytes();
    proof {
        lemma_ascii_boundaries(b, j as int);
    }
    let (head, tail) = s.split_at(j);
    let ghost t = tail.spec_bytes();
    assert(t == b.skip(j as int));
    proof {
        lemma_ascii_boundaries(t, 0);
    }
    let (_sep, rest) = tail.split_at(1);
    assert(rest.spec_bytes() =~= b.skip(j + 1));
    assert(head.spec_bytes() =~= b.take(j as int));
    (head, rest)
}


/// The bytes of each piece that `split_str` returns.
pub open spec fn piece_bytes<'a>(pieces: Seq<&'a str>) -> Seq<Seq<u8>> {
    pieces.map_values(|p: &'a str| p.spec_bytes())
}

/// Splits `s` at every occurrence of the ASCII byte `sep`, as `str::split`
/// does: the pieces between separators, in order, empty ones included.
pub fn split_str<'a>(s: &'a str, sep: u8) -> (r: Vec<&'a str>)
    requires
        sep < 0x80,
    ensures
        piece_bytes(r@) == split_bytes(s.spec_bytes(), sep),
{
    let mut pieces: Vec<&'a str> = Vec::new();
    let mut rest: &'a str = s;
    loop
        invariant
            sep < 0x80,
            split_bytes(s.spec_bytes(), sep) == piece_bytes(pieces@) + split_bytes(rest.spec_bytes(), sep),
        decreases rest.spec_bytes().len(),
    {
        let ghost rb = rest.spec_bytes();
        let bytes = rest.as_bytes();
        match find_byte_in(bytes, sep) {
            Some(j) => {
                proof {
                    lemma_find_byte(rb, sep);
                }
                let (head, tail) = cut_around(rest, j);
                let ghost old_pieces = pieces@;
                pieces.push(head);
                assert(piece_bytes(pieces@) =~= piece_bytes(old_pieces) + seq![rb.take(j as int)]);
                assert(split_bytes(rb, sep) == seq![rb.take(j as int)] + split_bytes(rb.skip(j + 1), sep));
                rest = tail;
            },
            None => {
                let ghost old_pieces = pieces@;
                pieces.push(rest);
                assert(piece_bytes(pieces@) =~= piece_bytes(old_pieces) + seq![rb]);
                assert(split_bytes(rb, sep) == seq![rb]);
                return pieces;
            },
        }
    }
}

/// What `String::from_utf8_lossy` makes of bytes that are not valid UTF-8.
pub uninterp spec fn utf8_lossy(bytes: Seq<u8>) -> Seq<char>;

/// The text that `String::from_utf8_lossy` makes of `bytes`: their decoding
/// when they are valid UTF-8.
pub open spec fn lossy_text(bytes: Seq<u8>) -> Seq<char> {
    if valid_utf8(bytes) {
        decode_utf8(bytes)
    } else {
        utf8_lossy(bytes)
    }
}

/// Calls `String::from_utf8_lossy`. Trusted: std documents that valid UTF-8
/// comes back unchanged; what it makes of invalid input (replacement
/// characters) is left to the name `utf8_lossy`.
#[verifier::external_body]
pub(crate) fn lossy_string(bytes: &[u8]) -> (r: String)
    ensures
        r@ == (if valid_utf8(bytes@) { decode_utf8(bytes@) } else { utf8_lossy(bytes@) }),
{
    String::from_utf8_lossy(bytes).into_owned()
}

/// A character with the Unicode White_Space property, which is what
/// `char::is_whitespace` tests.
pub open spec fn is_white_space(c: char) -> bool {
    ||| ('\u{9}' <= c <= '\u{d}')
    ||| c == ' '
    ||| c == '\u{85}'
    ||| c == '\u{a0}'
    ||| c == '\u{1680}'
    ||| ('\u{2000}' <= c <= '\u{200a}')
    ||| c == '\u{2028}'
    ||| c == '\u{2029}'
    ||| c == '\u{202f}'
    ||| c == '\u{205f}'
    ||| c == '\u{3000}'
}

/// `s` without its leading whitespace.
pub open spec fn trim_start_ws(s: Seq<char>) -> Seq<char>
    decreases s.len(),
{
    if s.len() > 0 && is_white_space(s[0]) {
        trim_start_ws(s.drop_first())
    } else {
        s
    }
}

/// `s` without its trailing whitespace.
pub open spec fn trim_end_ws(s: Seq<char>) -> Seq<char>
    decreases s.len(),
{
    if s.len() > 0 && is_white_space(s.last()) {
        trim_end_ws(s.drop_last())
    } else {
        s
    }
}

/// `s` without leading and trailing whitespace, as `str::trim` returns it.
pub open spec fn trimmed(s: Seq<char>) -> Seq<char> {
    trim_end_ws(trim_start_ws(s))
}

/// Calls `str::trim`. Trusted: std documents that it removes leading and
/// trailing whitespace, whitespace being the characters with the Unicode
/// White_Space property (`is_white_space`).
#[verifier::external_body]
pub(crate) fn trim_str(s: &str) -> (r: &str)
    ensures
        r@ == trimmed(s@),
{
    s.trim()
}

/// What `str::to_lowercase` returns for a text.
pub uninterp spec fn lowercased(s: Seq<char>) -> Seq<char>;

/// Calls `str::to_lowercase` (Unicode lower case). Trusted: only that the
/// result is the name `lowercased` of the input.
#[verifier::external_body]
pub(crate) fn lowercase(s: &str) -> (r: String)
    ensures
        r@ == lowercased(s@),
{
    s.to_lowercase()
}

/// Whether two texts are the same, compared byte by byte.
pub fn same_text(a: &str, b: &str) -> (r: bool)
    ensures
        r == (a@ == b@),
{
    let x = a.as_bytes();
    let y = b.as_bytes();
    proof {
        assert(decode_utf8(encode_utf8(a@)) == a@);
        assert(decode_utf8(encode_utf8(b@)) == b@);
    }
    if x.len() != y.len() {
        return false;
    }
    let mut i: usize = 0;
    while i < x.len()
        invariant
            x@ == a.spec_bytes(),
            y@ == b.spec_bytes(),
            x@.len() == y@.len(),
            0 <= i <= x@.len(),
            forall|k: int| 0 <= k < i ==> x@[k] == y@[k],
        decreases x.len() - i,
    {
        if x[i] != y[i] {
            return false;
        }
        i = i + 1;
    }
    assert(x@ =~= y@);
    true
}


/// The UTF-8 bytes of a concatenation are the bytes of the parts, in order.
pub proof fn lemma_encode_concat(a: Seq<char>, b: Seq<char>)
    ensures
        encode_utf8(a + b) == encode_utf8(a) + encode_utf8(b),
    decreases a.len(),
{
    if a.len() == 0 {
        assert(a + b =~= b);
        assert(encode_utf8(a) =~= Seq::<u8>::empty());
        assert(encode_utf8(a) + encode_utf8(b) =~= encode_utf8(b));
    } else {
        lemma_encode_concat(a.drop_first(), b);
        assert((a + b).drop_first() =~= a.drop_first() + b);
        assert((a + b)[0] == a[0]);
        assert(encode_utf8(a + b) =~= encode_utf8(a) + encode_utf8(b));
    }
}

/// An ASCII character is encoded as the one byte of its code; every byte
/// of any other character is 0x80 or more.
pub proof fn lemma_encode_scalar_bytes(c: char)
    ensures
        (c as u32) < 0x80 ==> encode_scalar(c as u32) == seq![(c as u32) as u8],
        (c as u32) >= 0x80 ==> forall|i: int|
            0 <= i < encode_scalar(c as u32).len() ==> #[trigger] encode_scalar(c as u32)[i] >= 0x80,
{
    let v = c as u32;
    char_is_scalar(c);
    assert(v < 0x80 ==> (v & 0x7F) as u8 == v as u8) by (bit_vector);
    assert(0xC0 | ((v >> 6) & 0x1F) as u8 >= 0x80) by (bit_vector);
    assert(0xE0 | ((v >> 12) & 0x0F) as u8 >= 0x80) by (bit_vector);
    assert(0xF0 | ((v >> 18) & 0x7) as u8 >= 0x80) by (bit_vector);
    assert(0x80 | (v & 0x3F) as u8 >= 0x80) by (bit_vector);
    assert(0x80 | ((v >> 6) & 0x3F) as u8 >= 0x80) by (bit_vector);
    assert(0x80 | ((v >> 12) & 0x3F) as u8 >= 0x80) by (bit_vector);
}

/// The character `c` does not occur in `s`.
pub open spec fn lacks_char(s: Seq<char>, c: char) -> bool {
    forall|i: int| 0 <= i < s.len() ==> #[trigger] s[i] != c
}

/// The byte `x` does not occur in `b`.
pub open spec fn lacks_byte(b: Seq<u8>, x: u8) -> bool {
    forall|i: int| 0 <= i < b.len() ==> #[trigger] b[i] != x
}

/// An ASCII character occurs in a text exactly when its byte occurs in
/// the text's UTF-8 bytes.
pub proof fn lemma_lacks_ascii(s: Seq<char>, c: char)
    requires
        (c as u32) < 0x80,
    ensures
        lacks_char(s, c) <==> lacks_byte(encode_utf8(s), (c as u32) as u8),
    decreases s.len(),
{
    let x = (c as u32) as u8;
    if s.len() > 0 {
        let t = s.drop_first();
        lemma_lacks_ascii(t, c);
        lemma_encode_scalar_bytes(s[0]);
        char_u32_cast(s[0], s[0] as u32);
        char_u32_cast(c, c as u32);
        let head = encode_scalar(s[0] as u32);
        let b = encode_utf8(s);
        assert(b == head + encode_utf8(t));
        if lacks_char(s, c) {
            assert forall|i: int| 0 <= i < b.len() implies #[trigger] b[i] != x by {
                if i < head.len() {
                    assert(b[i] == head[i]);
                    assert(s[0] != c);
                } else {
                    assert(b[i] == encode_utf8(t)[i - head.len()]);
                    assert forall|k: int| 0 <= k < t.len() implies #[trigger] t[k] != c by {
                        assert(t[k] == s[k + 1]);
                    }
                }
            }
        }
        if lacks_byte(b, x) {
            assert forall|i: int| 0 <= i < s.len() implies #[trigger] s[i] != c by {
                if i == 0 {
                    assert(b[0] == head[0]);
                } else {
                    assert forall|k: int| 0 <= k < encode_utf8(t).len() implies #[trigger] encode_utf8(t)[k] != x by {
                        assert(encode_utf8(t)[k] == b[k + head.len()]);
                    }
                    assert(s[i] == t[i - 1]);
                }
            }
        }
    }
}

/// `s` with every leading `c` removed, as `str::trim_start_matches(c)`.
pub open spec fn strip_leading(s: Seq<char>, c: char) -> Seq<char>
    decreases s.len(),
{
    if s.len() > 0 && s[0] == c {
        strip_leading(s.drop_first(), c)
    } else {
        s
    }
}

/// After stripping, the text does not begin with `c`.
pub proof fn lemma_strip_leading_head(s: Seq<char>, c: char)
    ensures
        strip_leading(s, c).len() > 0 ==> strip_leading(s, c)[0] != c,
    decreases s.len(),
{
    if s.len() > 0 && s[0] == c {
        lemma_strip_leading_head(s.drop_first(), c);
    }
}

proof fn lemma_strip_bytes(s: Seq<char>, c: char, j: int)
    requires
        (c as u32) < 0x80,
        0 <= j <= encode_utf8(s).len(),
        forall|k: int| 0 <= k < j ==> #[trigger] encode_utf8(s)[k] == (c as u32) as u8,
        j < encode_utf8(s).len() ==> encode_utf8(s)[j] != (c as u32) as u8,
    ensures
        strip_leading(s, c) == decode_utf8(encode_utf8(s).skip(j)),
    decreases j,
{
    let b = encode_utf8(s);
    if s.len() > 0 {
        lemma_encode_scalar_bytes(s[0]);
        char_u32_cast(s[0], s[0] as u32);
        char_u32_cast(c, c as u32);
    }
    if j == 0 {
        assert(b.skip(0) =~= b);
        if s.len() > 0 {
            assert(b[0] == encode_scalar(s[0] as u32)[0]);
        }
    } else {
        assert(b[0] == encode_scalar(s[0] as u32)[0]);
        assert(s[0] == c);
        let t = s.drop_first();
        assert(b == seq![(c as u32) as u8] + encode_utf8(t));
        assert forall|k: int| 0 <= k < j - 1 implies #[trigger] encode_utf8(t)[k] == (c as u32) as u8 by {
            assert(encode_utf8(t)[k] == b[k + 1]);
        }
        if j - 1 < encode_utf8(t).len() {
            assert(encode_utf8(t)[j - 1] == b[j]);
        }
        lemma_strip_bytes(t, c, j - 1);
        assert(encode_utf8(t).skip(j - 1) =~= b.skip(j));
    }
}

/// `s` without its leading `c` characters (an ASCII character), as
/// `str::trim_start_matches` with a `char` pattern.
pub fn strip_leading_str<'a>(s: &'a str, c: u8) -> (r: &'a str)
    requires
        c < 0x80,
    ensures
        r@ == strip_leading(s@, c as char),
{
    let b = s.as_bytes();
    let mut j: usize = 0;
    while j < b.len() && b[j] == c
        invariant
            0 <= j <= b@.len(),
            b@ == s.spec_bytes(),
            forall|k: int| 0 <= k < j ==> #[trigger] b@[k] == c,
        decreases b.len() - j,
    {
        j = j + 1;
    }
    proof {
        assert((c as char) as u32 == c as u32);
        assert(((c as char) as u32) as u8 == c);
        lemma_strip_bytes(s@, c as char, j as int);
        if j > 0 {
            lemma_ascii_boundaries(b@, j - 1);
        } else {
            is_char_boundary_start_end_of_seq(b@);
        }
    }
    let (_lead, rest) = s.split_at(j);
    assert(rest.spec_bytes() =~= b@.skip(j as int));
    rest
}


/// The UTF-8 bytes of `s` begin with those of the ASCII text `p` exactly
/// when `s` begins with `p`.
pub proof fn lemma_ascii_prefix(s: Seq<char>, p: Seq<char>)
    requires
        is_ascii_chars(p),
    ensures
        (encode_utf8(s).len() >= encode_utf8(p).len() && encode_utf8(s).take(encode_utf8(p).len() as int) == encode_utf8(p))
            <==> (s.len() >= p.len() && s.take(p.len() as int) == p),
    decreases p.len(),
{
    if p.len() > 0 {
        let q = p.drop_first();
        assert(is_ascii_chars(q)) by {
            assert forall|i: int| 0 <= i < q.len() implies '\0' <= #[trigger] q[i] <= '\u{7f}' by {
                assert(q[i] == p[i + 1]);
            }
        }
        assert('\0' <= p[0] <= '\u{7f}');
        assert((p[0] as u32) < 0x80);
        lemma_encode_scalar_bytes(p[0]);
        let bp = encode_utf8(p);
        let bs = encode_utf8(s);
        assert(bp == seq![(p[0] as u32) as u8] + encode_utf8(q));
        if s.len() == 0 {
            assert(bs.len() == 0);
        } else {
            let t = s.drop_first();
            lemma_ascii_prefix(t, q);
            lemma_encode_scalar_bytes(s[0]);
            char_u32_cast(s[0], s[0] as u32);
            char_u32_cast(p[0], p[0] as u32);
            let hs = encode_scalar(s[0] as u32);
            assert(bs == hs + encode_utf8(t));
            if bs.len() >= bp.len() && bs.take(bp.len() as int) == bp {
                assert(bs[0] == bs.take(bp.len() as int)[0]);
                assert(bs[0] == bp[0]);
                assert(hs[0] == bs[0]);
                assert((s[0] as u32) < 0x80);
                assert(hs == seq![(s[0] as u32) as u8]);
                assert((s[0] as u32) as u8 == (p[0] as u32) as u8);
                assert(s[0] as u32 == p[0] as u32);
                assert(s[0] == p[0]);
                let et = encode_utf8(t);
                let eq = encode_utf8(q);
                assert(et.len() >= eq.len());
                assert(et.take(eq.len() as int) =~= bs.take(bp.len() as int).drop_first());
                assert(bp.drop_first() =~= eq);
                assert(t.len() >= q.len() && t.take(q.len() as int) == q);
                assert(s.len() >= p.len());
                assert(s.take(p.len() as int) =~= seq![s[0]] + t.take(q.len() as int));
                assert(p =~= seq![p[0]] + q);
            }
            if s.len() >= p.len() && s.take(p.len() as int) == p {
                assert(s[0] == p[0]) by {
                    assert(s.take(p.len() as int)[0] == s[0]);
                }
                assert(t.take(q.len() as int) =~= s.take(p.len() as int).drop_first());
                assert(p.drop_first() =~= q);
                assert(bs.take(bp.len() as int) =~= seq![(p[0] as u32) as u8] + encode_utf8(t).take(encode_utf8(q).len() as int));
            }
        }
    } else {
        assert(encode_utf8(p).len() == 0);
        assert(encode_utf8(s).take(0) =~= encode_utf8(p));
        assert(s.take(0) =~= p);
    }
}

/// Whether `s` begins with the ASCII text `p`.
pub fn starts_with_ascii(s: &str, p: &str) -> (r: bool)
    requires
        is_ascii_chars(p@),
    ensures
        r == (s@.len() >= p@.len() && s@.take(p@.len() as int) == p@),
{
    let x = s.as_bytes();
    let y = p.as_bytes();
    proof {
        lemma_ascii_prefix(s@, p@);
    }
    if x.len() < y.len() {
        return false;
    }
    let mut i: usize = 0;
    while i < y.len()
        invariant
            x@ == s.spec_bytes(),
            y@ == p.spec_bytes(),
            x@.len() >= y@.len(),
            (x@.len() >= y@.len() && x@.take(y@.len() as int) == y@) <==> (s@.len() >= p@.len()
                && s@.take(p@.len() as int) == p@),
            0 <= i <= y@.len(),
            forall|k: int| 0 <= k < i ==> x@[k] == y@[k],
        decreases y.len() - i,
    {
        if x[i] != y[i] {
            assert(x@.take(y@.len() as int)[i as int] != y@[i as int]);
            return false;
        }
        i = i + 1;
    }
    assert(x@.take(y@.len() as int) =~= y@);
    true
}


/// Texts joined with `sep` between each two of them.
pub open spec fn join_with(parts: Seq<Seq<char>>, sep: Seq<char>) -> Seq<char>
    decreases parts.len(),
{
    if parts.len() == 0 {
        Seq::empty()
    } else if parts.len() == 1 {
        parts[0]
    } else {
        join_with(parts.drop_last(), sep) + sep + parts.last()
    }
}

/// Splitting at a separator that was put between two byte strings splits
/// each of them.
pub proof fn lemma_split_concat(x: Seq<u8>, y: Seq<u8>, sep: u8)
    ensures
        split_bytes(x + seq![sep] + y, sep) == split_bytes(x, sep) + split_bytes(y, sep),
    decreases x.len(),
{
    let z = x + seq![sep] + y;
    lemma_find_byte(x, sep);
    match find_byte(x, sep) {
        Some(i) => {
            assert forall|k: int| 0 <= k < i implies z[k] != sep by {
                assert(z[k] == x[k]);
            }
            assert(z[i] == x[i]);
            lemma_find_byte_at(z, sep, i);
            let xr = x.skip(i + 1);
            assert(z.take(i) =~= x.take(i));
            assert(z.skip(i + 1) =~= xr + seq![sep] + y);
            lemma_split_concat(xr, y, sep);
            assert(split_bytes(z, sep) == seq![x.take(i)] + split_bytes(z.skip(i + 1), sep));
            assert(split_bytes(x, sep) == seq![x.take(i)] + split_bytes(xr, sep));
            assert(split_bytes(z, sep) =~= split_bytes(x, sep) + split_bytes(y, sep));
        },
        None => {
            assert forall|k: int| 0 <= k < x.len() implies z[k] != sep by {
                assert(z[k] == x[k]);
            }
            assert(z[x.len() as int] == sep);
            lemma_find_byte_at(z, sep, x.len() as int);
            assert(z.take(x.len() as int) =~= x);
            assert(z.skip(x.len() as int + 1) =~= y);
            assert(split_bytes(x, sep) == seq![x]);
            assert(split_bytes(z, sep) =~= split_bytes(x, sep) + split_bytes(y, sep));
        },
    }
}

/// Bytes without the separator are one piece.
pub proof fn lemma_split_plain(x: Seq<u8>, sep: u8)
    requires
        lacks_byte(x, sep),
    ensures
        split_bytes(x, sep) == seq![x],
{
    lemma_find_byte_at(x, sep, x.len() as int);
}

/// The UTF-8 bytes of one ASCII character.
pub proof fn lemma_encode_ascii_char(c: char)
    requires
        (c as u32) < 0x80,
    ensures
        encode_utf8(seq![c]) == seq![(c as u32) as u8],
{
    lemma_encode_scalar_bytes(c);
    assert(seq![c].drop_first() =~= Seq::<char>::empty());
    assert(encode_utf8(Seq::<char>::empty()) =~= Seq::<u8>::empty());
    assert(encode_utf8(seq![c]) =~= seq![(c as u32) as u8]);
}

/// The UTF-8 bytes of each of some texts.
pub open spec fn encode_each(parts: Seq<Seq<char>>) -> Seq<Seq<u8>> {
    parts.map_values(|p: Seq<char>| encode_utf8(p))
}

/// Texts without an ASCII character, joined by that character, split
/// back into their bytes.
pub proof fn lemma_split_join(parts: Seq<Seq<char>>, c: char)
    requires
        (c as u32) < 0x80,
        parts.len() >= 1,
        forall|i: int| 0 <= i < parts.len() ==> lacks_char(#[trigger] parts[i], c),
    ensures
        split_bytes(encode_utf8(join_with(parts, seq![c])), (c as u32) as u8) == encode_each(parts),
    decreases parts.len(),
{
    let x = (c as u32) as u8;
    if parts.len() == 1 {
        lemma_lacks_ascii(parts[0], c);
        lemma_split_plain(encode_utf8(parts[0]), x);
        assert(encode_each(parts) =~= seq![encode_utf8(parts[0])]);
    } else {
        let init = parts.drop_last();
        assert forall|i: int| 0 <= i < init.len() implies lacks_char(#[trigger] init[i], c) by {
            assert(init[i] == parts[i]);
        }
        lemma_split_join(init, c);
        let last = parts.last();
        assert(lacks_char(parts[parts.len() - 1], c));
        lemma_lacks_ascii(last, c);
        lemma_split_plain(encode_utf8(last), x);
        let j = join_with(init, seq![c]);
        lemma_encode_concat(j + seq![c], last);
        lemma_encode_concat(j, seq![c]);
        lemma_encode_ascii_char(c);
        assert(encode_utf8(join_with(parts, seq![c])) == encode_utf8(j) + seq![x] + encode_utf8(last));
        lemma_split_concat(encode_utf8(j), encode_utf8(last), x);
        assert(encode_each(parts) =~= encode_each(init) + seq![encode_utf8(last)]);
    }
}


/// Texts without `c`, joined by a separator without `c`, have no `c`.
pub proof fn lemma_join_lacks(parts: Seq<Seq<char>>, sep: Seq<char>, c: char)
    requires
        lacks_char(sep, c),
        forall|i: int| 0 <= i < parts.len() ==> lacks_char(#[trigger] parts[i], c),
    ensures
        lacks_char(join_with(parts, sep), c),
    decreases parts.len(),
{
    if parts.len() > 1 {
        let init = parts.drop_last();
        assert forall|i: int| 0 <= i < init.len() implies lacks_char(#[trigger] init[i], c) by {
            assert(init[i] == parts[i]);
        }
        lemma_join_lacks(init, sep, c);
        let j = join_with(init, sep);
        let last = parts.last();
        assert(lacks_char(parts[parts.len() - 1], c));
        let all = j + sep + last;
        assert forall|k: int| 0 <= k < all.len() implies #[trigger] all[k] != c by {
            if k < j.len() {
                assert(all[k] == j[k]);
            } else if k < j.len() + sep.len() {
                assert(all[k] == sep[k - j.len()]);
            } else {
                assert(all[k] == last[k - j.len() - sep.len()]);
            }
        }
    } else if parts.len() == 1 {
        assert(lacks_char(parts[0], c));
    }
}

} // verus!
