//! The query string of a request URL, decoded into key/value pairs.
use vstd::prelude::*;
use vstd::string::StringSliceAdditionalSpecFns;
use crate::text::{find_byte, find_byte_in, lemma_find_byte, lemma_find_byte_at, split_bytes, split_str, piece_bytes, cut_around, same_text,
    lacks_char, lacks_byte, lemma_lacks_ascii, lemma_encode_concat, lemma_encode_ascii_char, join_with, encode_each, lemma_split_join};
use vstd::utf8::encode_utf8;
use crate::urlcode::{urldecode, can_urldecode, url_decode_bytes, decoded_text, percent_cuts_on_boundaries, plain_url_bytes, lemma_plain_decodes_to_itself};
use vstd::utf8::{valid_utf8, decode_utf8};

verus! {

broadcast use {vstd::utf8::encode_utf8_decode_utf8, vstd::utf8::encode_utf8_valid_utf8};

/// The bytes after the first `?` of a URL; empty when it has none.
pub open spec fn raw_query(url: Seq<u8>) -> Seq<u8> {
    match find_byte(url, 0x3f) {
        Some(i) => url.skip(i + 1),
        None => Seq::empty(),
    }
}

/// One `key=value` piece cut at its first `=`; a piece without `=` is a key
/// with an empty value.
pub open spec fn key_value(piece: Seq<u8>) -> (Seq<u8>, Seq<u8>) {
    match find_byte(piece, 0x3d) {
        Some(i) => (piece.take(i), piece.skip(i + 1)),
        None => (piece, Seq::empty()),
    }
}

/// The raw (undecoded) pairs of the non-empty pieces, in order.
pub open spec fn raw_pairs(pieces: Seq<Seq<u8>>) -> Seq<(Seq<u8>, Seq<u8>)>
    decreases pieces.len(),
{
    if pieces.len() == 0 {
        Seq::empty()
    } else if pieces.last().len() == 0 {
        raw_pairs(pieces.drop_last())
    } else {
        raw_pairs(pieces.drop_last()).push(key_value(pieces.last()))
    }
}

/// The raw pairs of a URL's query string, split at `&`.
pub open spec fn query_raw_pairs(url: Seq<u8>) -> Seq<(Seq<u8>, Seq<u8>)> {
    raw_pairs(split_bytes(raw_query(url), 0x26))
}

/// Both sides of each raw pair URL-decoded.
pub open spec fn decoded_pairs(raw: Seq<(Seq<u8>, Seq<u8>)>) -> Seq<(Seq<char>, Seq<char>)> {
    raw.map_values(|p: (Seq<u8>, Seq<u8>)| (decoded_text(p.0), decoded_text(p.1)))
}

/// The decoded pairs that `Query::parse` holds for a URL's bytes.
pub open spec fn parsed_pairs(url: Seq<u8>) -> Seq<(Seq<char>, Seq<char>)> {
    decoded_pairs(query_raw_pairs(url))
}

/// Every key and value of the URL's query can be decoded without slicing a
/// character in two.
pub open spec fn query_decodable(url: Seq<u8>) -> bool {
    forall|i: int|
        0 <= i < query_raw_pairs(url).len() ==> percent_cuts_on_boundaries(#[trigger] query_raw_pairs(url)[i].0)
            && percent_cuts_on_boundaries(query_raw_pairs(url)[i].1)
}

/// The value of the first pair whose key is `k`.
pub open spec fn lookup(pairs: Seq<(Seq<char>, Seq<char>)>, k: Seq<char>) -> Option<Seq<char>>
    decreases pairs.len(),
{
    if pairs.len() == 0 {
        None
    } else if pairs[0].0 == k {
        Some(pairs[0].1)
    } else {
        lookup(pairs.drop_first(), k)
    }
}

/// Skipping pairs whose key is not `k` does not change the lookup.
pub proof fn lemma_lookup_skip(pairs: Seq<(Seq<char>, Seq<char>)>, k: Seq<char>, i: int)
    requires
        0 <= i <= pairs.len(),
        forall|j: int| 0 <= j < i ==> pairs[j].0 != k,
    ensures
        lookup(pairs, k) == lookup(pairs.skip(i), k),
    decreases i,
{
    if i > 0 {
        let t = pairs.drop_first();
        assert forall|j: int| 0 <= j < i - 1 implies t[j].0 != k by {
            assert(t[j] == pairs[j + 1]);
        }
        lemma_lookup_skip(t, k, i - 1);
        assert(t.skip(i - 1) =~= pairs.skip(i));
    } else {
        assert(pairs.skip(0) =~= pairs);
    }
}

/// The decoded `key=value` pairs of a request URL's query string, in the
/// order they appear.
pub struct Query(Vec<(String, String)>);

impl View for Query {
    type V = Seq<(Seq<char>, Seq<char>)>;

    closed spec fn view(&self) -> Seq<(Seq<char>, Seq<char>)> {
        pair_views(self.0@)
    }
}

/// The texts of owned key/value pairs.
pub open spec fn pair_views(pairs: Seq<(String, String)>) -> Seq<(Seq<char>, Seq<char>)> {
    pairs.map_values(|p: (String, String)| (p.0@, p.1@))
}

proof fn lemma_pair_views_push(pairs: Seq<(String, String)>, p: (String, String))
    ensures
        pair_views(pairs.push(p)) == pair_views(pairs).push((p.0@, p.1@)),
{
    assert(pair_views(pairs.push(p)) =~= pair_views(pairs).push((p.0@, p.1@)));
}

proof fn lemma_decoded_pairs_push(raw: Seq<(Seq<u8>, Seq<u8>)>, p: (Seq<u8>, Seq<u8>))
    ensures
        decoded_pairs(raw.push(p)) == decoded_pairs(raw).push((decoded_text(p.0), decoded_text(p.1))),
{
    assert(decoded_pairs(raw.push(p)) =~= decoded_pairs(raw).push((decoded_text(p.0), decoded_text(p.1))));
}

/// The query string of `url`: what follows its first `?`, or nothing.
fn query_part(url: &str) -> (query: &str)
    ensures
        query.spec_bytes() == raw_query(url.spec_bytes()),
{
    let ghost ub = url.spec_bytes();
    let query: &str = match find_byte_in(url.as_bytes(), 0x3f) {
        Some(i) => {
            proof {
                lemma_find_byte(ub, 0x3f);
            }
            let (_path, rest) = cut_around(url, i);
            rest
        },
        None => "",
    };
    proof {
        if find_byte(ub, 0x3f) is None {
            reveal_strlit("");
            assert(query@.len() == 0);
            assert(query.spec_bytes() =~= Seq::<u8>::empty());
        }
    }
    query
}

impl Query {
    /// Reads the query string of `url` (after the first `?`): pieces
    /// between `&`, empty ones skipped, each cut at its first `=` and both
    /// sides URL-decoded.
    pub fn parse(url: &str) -> (q: Query)
        requires
            query_decodable(url.spec_bytes()),
        ensures
            q@ == parsed_pairs(url.spec_bytes()),
    {
        let ghost ub = url.spec_bytes();
        let query = query_part(url);
        let pieces = split_str(query, 0x26);
        let ghost pb = piece_bytes(pieces@);
        let mut pairs: Vec<(String, String)> = Vec::new();
        let mut i: usize = 0;
        assert(pb.take(0) =~= Seq::<Seq<u8>>::empty());
        assert(pair_views(pairs@) =~= Seq::<(Seq<char>, Seq<char>)>::empty());
        while i < pieces.len()
            invariant
                0 <= i <= pieces@.len(),
                pb == piece_bytes(pieces@),
                pb == split_bytes(raw_query(ub), 0x26),
                query_decodable(ub),
                raw_pairs(pb) == query_raw_pairs(ub),
                pair_views(pairs@) == decoded_pairs(raw_pairs(pb.take(i as int))),
            decreases pieces.len() - i,
        {
            let piece: &str = pieces[i];
            let ghost before = pairs@;
            assert(pb[i as int] == piece.spec_bytes());
            assert(pb.take(i + 1).drop_last() =~= pb.take(i as int));
            assert(pb.take(i + 1).last() == pb[i as int]);
            proof {
                lemma_raw_pairs_prefix(pb, i as int + 1);
            }
            if piece.as_bytes().len() > 0 {
                let ghost kv = key_value(piece.spec_bytes());
                let ghost idx: int = raw_pairs(pb.take(i as int)).len() as int;
                assert(raw_pairs(pb)[idx] == kv);
                assert(query_raw_pairs(ub)[idx] == kv);
                assert(percent_cuts_on_boundaries(query_raw_pairs(ub)[idx].0));
                assert(percent_cuts_on_boundaries(kv.0) && percent_cuts_on_boundaries(kv.1));
                let (k, v) = match find_byte_in(piece.as_bytes(), 0x3d) {
                    Some(j) => {
                        proof {
                            lemma_find_byte(piece.spec_bytes(), 0x3d);
                        }
                        let (k, v) = cut_around(piece, j);
                        assert(k.spec_bytes() == kv.0 && v.spec_bytes() == kv.1);
                        (urldecode(k), urldecode(v))
                    },
                    None => {
                        proof {
                            assert(url_decode_bytes(Seq::<u8>::empty()) =~= Seq::<u8>::empty());
                            assert(valid_utf8(Seq::<u8>::empty()));
                            assert(decode_utf8(Seq::<u8>::empty()) =~= Seq::<char>::empty());
                        }
                        (urldecode(piece), String::new())
                    },
                };
                assert(k@ == decoded_text(kv.0) && v@ == decoded_text(kv.1));
                pairs.push((k, v));
                assert(pairs@ =~= before.push((k, v)));
                proof {
                    let old_raw = raw_pairs(pb.take(i as int));
                    assert(pb[i as int].len() > 0);
                    assert(raw_pairs(pb.take(i + 1)) == old_raw.push(kv));
                    lemma_pair_views_push(before, (k, v));
                    lemma_decoded_pairs_push(old_raw, kv);
                }
            } else {
                assert(raw_pairs(pb.take(i + 1)) == raw_pairs(pb.take(i as int)));
            }
            i = i + 1;
        }
        assert(pb.take(i as int) =~= pb);
        Query(pairs)
    }

    /// Whether `parse` can read the query string of `url`: every key and
    /// value can be URL-decoded.
    pub fn can_parse(url: &str) -> (r: bool)
        ensures
            r == query_decodable(url.spec_bytes()),
    {
        let ghost ub = url.spec_bytes();
        let query = query_part(url);
        let pieces = split_str(query, 0x26);
        let ghost pb = piece_bytes(pieces@);
        let ghost raw = query_raw_pairs(ub);
        let mut i: usize = 0;
        assert(pb.take(0) =~= Seq::<Seq<u8>>::empty());
        while i < pieces.len()
            invariant
                0 <= i <= pieces@.len(),
                pb == piece_bytes(pieces@),
                pb == split_bytes(raw_query(ub), 0x26),
                ub == url.spec_bytes(),
                raw == query_raw_pairs(ub),
                raw_pairs(pb) == raw,
                raw_pairs(pb.take(i as int)).len() <= raw.len(),
                forall|m: int| 0 <= m < raw_pairs(pb.take(i as int)).len() ==> percent_cuts_on_boundaries(#[trigger] raw[m].0)
                    && percent_cuts_on_boundaries(raw[m].1),
            decreases pieces.len() - i,
        {
            let piece: &str = pieces[i];
            assert(pb[i as int] == piece.spec_bytes());
            assert(pb.take(i + 1).drop_last() =~= pb.take(i as int));
            assert(pb.take(i + 1).last() == pb[i as int]);
            proof {
                lemma_raw_pairs_prefix(pb, i as int + 1);
            }
            if piece.as_bytes().len() > 0 {
                let ghost kv = key_value(piece.spec_bytes());
                let ghost idx: int = raw_pairs(pb.take(i as int)).len() as int;
                assert(raw_pairs(pb.take(i + 1)).len() == idx + 1);
                assert(idx < raw.len());
                assert(raw[idx] == kv);
                let ok = match find_byte_in(piece.as_bytes(), 0x3d) {
                    Some(j) => {
                        proof {
                            lemma_find_byte(piece.spec_bytes(), 0x3d);
                        }
                        let (k, v) = cut_around(piece, j);
                        assert(k.spec_bytes() == kv.0 && v.spec_bytes() == kv.1);
                        let okk = can_urldecode(k.as_bytes());
                        let okv = can_urldecode(v.as_bytes());
                        assert(okk == percent_cuts_on_boundaries(kv.0));
                        assert(okv == percent_cuts_on_boundaries(kv.1));
                        okk && okv
                    },
                    None => {
                        assert(kv.1 =~= Seq::<u8>::empty());
                        assert(percent_cuts_on_boundaries(kv.1));
                        let okp = can_urldecode(piece.as_bytes());
                        assert(okp == percent_cuts_on_boundaries(kv.0));
                        okp
                    },
                };
                assert(ok == (percent_cuts_on_boundaries(kv.0) && percent_cuts_on_boundaries(kv.1)));
                if !ok {
                    assert(!(percent_cuts_on_boundaries(query_raw_pairs(ub)[idx].0) && percent_cuts_on_boundaries(
                        query_raw_pairs(ub)[idx].1,
                    )));
                    assert(!query_decodable(ub));
                    return false;
                }
                assert(percent_cuts_on_boundaries(raw[idx].0) && percent_cuts_on_boundaries(raw[idx].1));
            }
            assert forall|m: int| 0 <= m < raw_pairs(pb.take(i + 1)).len() implies percent_cuts_on_boundaries(
                #[trigger] raw[m].0,
            ) && percent_cuts_on_boundaries(raw[m].1) by {
                if m < raw_pairs(pb.take(i as int)).len() {
                    assert(percent_cuts_on_boundaries(raw[m].0));
                }
            }
            i = i + 1;
        }
        assert(pb.take(i as int) =~= pb);
        assert forall|m: int| 0 <= m < query_raw_pairs(ub).len() implies percent_cuts_on_boundaries(
            #[trigger] query_raw_pairs(ub)[m].0,
        ) && percent_cuts_on_boundaries(query_raw_pairs(ub)[m].1) by {
            assert(percent_cuts_on_boundaries(raw[m].0));
        }
        assert(query_decodable(ub));
        true
    }

    /// The value of the first pair whose key is `k`.
    pub fn get(&self, k: &str) -> (r: Option<&str>)
        ensures
            match r {
                Some(v) => lookup(self@, k@) == Some(v@),
                None => lookup(self@, k@) == None::<Seq<char>>,
            },
    {
        let mut i: usize = 0;
        while i < self.0.len()
            invariant
                0 <= i <= self@.len(),
                forall|j: int| 0 <= j < i ==> self@[j].0 != k@,
            decreases self.0.len() - i,
        {
            if same_text(self.0[i].0.as_str(), k) {
                proof {
                    lemma_lookup_skip(self@, k@, i as int);
                    assert(self@.skip(i as int)[0] == self@[i as int]);
                }
                return Some(self.0[i].1.as_str());
            }
            i = i + 1;
        }
        proof {
            lemma_lookup_skip(self@, k@, i as int);
        }
        None
    }
}

/// The raw pairs of a prefix of the pieces are a prefix of the raw pairs,
/// and one more piece adds at most one pair.
pub proof fn lemma_raw_pairs_prefix(pieces: Seq<Seq<u8>>, n: int)
    requires
        0 < n <= pieces.len(),
    ensures
        raw_pairs(pieces.take(n)) == (if pieces[n - 1].len() == 0 {
            raw_pairs(pieces.take(n - 1))
        } else {
            raw_pairs(pieces.take(n - 1)).push(key_value(pieces[n - 1]))
        }),
        raw_pairs(pieces.take(n)).len() <= raw_pairs(pieces).len(),
        forall|j: int| 0 <= j < raw_pairs(pieces.take(n)).len() ==> #[trigger] raw_pairs(pieces)[j] == raw_pairs(pieces.take(n))[j],
    decreases pieces.len() - n,
{
    assert(pieces.take(n).drop_last() =~= pieces.take(n - 1));
    if n < pieces.len() {
        lemma_raw_pairs_prefix(pieces, n + 1);
        assert(pieces.take(n + 1).drop_last() =~= pieces.take(n));
    } else {
        assert(pieces.take(n) =~= pieces);
    }
}


/// The `key=value` text of one pair.
pub open spec fn pair_text(p: (Seq<char>, Seq<char>)) -> Seq<char> {
    p.0 + seq!['='] + p.1
}

/// The `key=value` texts of pairs.
pub open spec fn pair_texts(pairs: Seq<(Seq<char>, Seq<char>)>) -> Seq<Seq<char>> {
    pairs.map_values(|p: (Seq<char>, Seq<char>)| pair_text(p))
}

/// A query string that carries `pairs`: `?`, then the pairs joined by `&`.
pub open spec fn query_text(pairs: Seq<(Seq<char>, Seq<char>)>) -> Seq<char> {
    seq!['?'] + join_with(pair_texts(pairs), seq!['&'])
}

/// A key that a query string carries unchanged: no `&`, `=`, `%` or `+`.
pub open spec fn plain_query_key(k: Seq<char>) -> bool {
    lacks_char(k, '&') && lacks_char(k, '=') && lacks_char(k, '%') && lacks_char(k, '+')
}

/// A value that a query string carries unchanged: no `&`, `%` or `+`.
pub open spec fn plain_query_value(v: Seq<char>) -> bool {
    lacks_char(v, '&') && lacks_char(v, '%') && lacks_char(v, '+')
}

/// A text without `%` and `+` decodes to itself.
pub proof fn lemma_plain_text_decodes(t: Seq<char>)
    requires
        lacks_char(t, '%'),
        lacks_char(t, '+'),
    ensures
        plain_url_bytes(encode_utf8(t)),
        percent_cuts_on_boundaries(encode_utf8(t)),
        decoded_text(encode_utf8(t)) == t,
{
    lemma_lacks_ascii(t, '%');
    lemma_lacks_ascii(t, '+');
    let b = encode_utf8(t);
    assert(('%' as u32) as u8 == 0x25u8);
    assert(('+' as u32) as u8 == 0x2bu8);
    assert(plain_url_bytes(b));
    lemma_plain_decodes_to_itself(b);
}

proof fn lemma_key_value_of_pair(k: Seq<char>, v: Seq<char>)
    requires
        lacks_char(k, '='),
    ensures
        key_value(encode_utf8(pair_text((k, v)))) == (encode_utf8(k), encode_utf8(v)),
{
    let ek = encode_utf8(k);
    let ev = encode_utf8(v);
    lemma_encode_concat(k + seq!['='], v);
    lemma_encode_concat(k, seq!['=']);
    lemma_encode_ascii_char('=');
    assert(('=' as u32) as u8 == 0x3du8);
    let b = encode_utf8(pair_text((k, v)));
    assert(b == ek + seq![0x3du8] + ev);
    lemma_lacks_ascii(k, '=');
    assert forall|j: int| 0 <= j < ek.len() implies b[j] != 0x3du8 by {
        assert(b[j] == ek[j]);
    }
    assert(b[ek.len() as int] == 0x3du8);
    lemma_find_byte_at(b, 0x3d, ek.len() as int);
    assert(b.take(ek.len() as int) =~= ek);
    assert(b.skip(ek.len() as int + 1) =~= ev);
}

proof fn lemma_raw_pairs_nonempty(pieces: Seq<Seq<u8>>)
    requires
        forall|i: int| 0 <= i < pieces.len() ==> (#[trigger] pieces[i]).len() > 0,
    ensures
        raw_pairs(pieces) == pieces.map_values(|p: Seq<u8>| key_value(p)),
    decreases pieces.len(),
{
    if pieces.len() > 0 {
        let init = pieces.drop_last();
        assert forall|i: int| 0 <= i < init.len() implies (#[trigger] init[i]).len() > 0 by {
            assert(init[i] == pieces[i]);
        }
        lemma_raw_pairs_nonempty(init);
        assert(pieces[pieces.len() - 1].len() > 0);
        assert(pieces.map_values(|p: Seq<u8>| key_value(p)) =~= init.map_values(|p: Seq<u8>| key_value(p)).push(
            key_value(pieces.last()),
        ));
    } else {
        assert(pieces.map_values(|p: Seq<u8>| key_value(p)) =~= Seq::<(Seq<u8>, Seq<u8>)>::empty());
    }
}

/// A query string built from pairs whose keys and values hold no `&`,
/// `%` or `+` (and keys no `=`) parses back to exactly those pairs.
pub proof fn query_text_parses_back(pairs: Seq<(Seq<char>, Seq<char>)>)
    requires
        forall|i: int| 0 <= i < pairs.len() ==> plain_query_key(#[trigger] pairs[i].0) && plain_query_value(pairs[i].1),
    ensures
        query_decodable(encode_utf8(query_text(pairs))),
        parsed_pairs(encode_utf8(query_text(pairs))) == pairs,
{
    let texts = pair_texts(pairs);
    let joined = join_with(texts, seq!['&']);
    let url = encode_utf8(query_text(pairs));
    lemma_encode_concat(seq!['?'], joined);
    lemma_encode_ascii_char('?');
    assert(('?' as u32) as u8 == 0x3fu8);
    assert(url == seq![0x3fu8] + encode_utf8(joined));
    lemma_find_byte_at(url, 0x3f, 0);
    assert(raw_query(url) =~= encode_utf8(joined));
    if pairs.len() == 0 {
        assert(texts.len() == 0);
        assert(encode_utf8(joined) =~= Seq::<u8>::empty());
        lemma_find_byte_at(encode_utf8(joined), 0x26, 0);
        assert(split_bytes(encode_utf8(joined), 0x26) =~= seq![Seq::<u8>::empty()]);
        let pieces = seq![Seq::<u8>::empty()];
        assert(pieces.drop_last() =~= Seq::<Seq<u8>>::empty());
        assert(pieces.last().len() == 0);
        assert(raw_pairs(pieces) == raw_pairs(pieces.drop_last()));
        assert(raw_pairs(Seq::<Seq<u8>>::empty()) =~= Seq::<(Seq<u8>, Seq<u8>)>::empty());
        assert(raw_pairs(pieces) =~= Seq::<(Seq<u8>, Seq<u8>)>::empty());
        assert(parsed_pairs(url) =~= pairs);
    } else {
        assert forall|i: int| 0 <= i < texts.len() implies lacks_char(#[trigger] texts[i], '&') by {
            let k = pairs[i].0;
            let v = pairs[i].1;
            assert(plain_query_key(pairs[i].0) && plain_query_value(pairs[i].1));
            assert(texts[i] == k + seq!['='] + v);
            assert forall|j: int| 0 <= j < texts[i].len() implies #[trigger] texts[i][j] != '&' by {
                if j < k.len() {
                    assert(texts[i][j] == k[j]);
                } else if j > k.len() {
                    assert(texts[i][j] == v[j - k.len() - 1]);
                }
            }
        }
        assert(('&' as u32) as u8 == 0x26u8);
        lemma_split_join(texts, '&');
        let pieces = encode_each(texts);
        assert(split_bytes(raw_query(url), 0x26) == pieces);
        assert forall|i: int| 0 <= i < pieces.len() implies (#[trigger] pieces[i]).len() > 0 by {
            lemma_encode_concat(pairs[i].0 + seq!['='], pairs[i].1);
            lemma_encode_concat(pairs[i].0, seq!['=']);
            lemma_encode_ascii_char('=');
        }
        lemma_raw_pairs_nonempty(pieces);
        let raw = query_raw_pairs(url);
        assert(raw.len() == pairs.len());
        assert forall|i: int| 0 <= i < raw.len() implies #[trigger] raw[i] == (encode_utf8(pairs[i].0), encode_utf8(pairs[i].1)) by {
            assert(plain_query_key(pairs[i].0));
            assert(pieces[i] == encode_utf8(pair_text(pairs[i])));
            lemma_key_value_of_pair(pairs[i].0, pairs[i].1);
        }
        assert forall|i: int| 0 <= i < raw.len() implies percent_cuts_on_boundaries(#[trigger] raw[i].0)
            && percent_cuts_on_boundaries(raw[i].1) && decoded_text(raw[i].0) == pairs[i].0 && decoded_text(raw[i].1) == pairs[i].1 by {
            assert(plain_query_key(pairs[i].0) && plain_query_value(pairs[i].1));
            lemma_plain_text_decodes(pairs[i].0);
            lemma_plain_text_decodes(pairs[i].1);
        }
        assert(parsed_pairs(url) =~= pairs);
    }
}

} // verus!
