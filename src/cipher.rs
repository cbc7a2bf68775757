//! The query-string-like blob that protects a stream's signature, and the
//! stream URL built from it.
use crate::text::concat3;
use vstd::prelude::*;

verus! {

/// The text that percent-decoding `s` gives.
pub uninterp spec fn percent_decoded(s: Seq<char>) -> Seq<char>;

/// Relies on percent_encoding::percent_decode_str with a lossy UTF-8 reading:
/// the result depends on the text alone, and the empty text stays empty.
#[verifier::external_body]
fn percent_decode(s: &str) -> (r: String)
    ensures
        r@ == percent_decoded(s@),
        s@.len() == 0 ==> r@.len() == 0,
{
    percent_encoding::percent_decode_str(s).decode_utf8_lossy().into_owned()
}

/// The first index at or after `i` that holds `c`; the length where none does.
pub open spec fn index_from(s: Seq<char>, c: char, i: int) -> int
    decreases s.len() - i,
{
    if i >= s.len() {
        s.len() as int
    } else if s[i] == c {
        i
    } else {
        index_from(s, c, i + 1)
    }
}

/// The pieces of `s` from `start` on, cut at each `c`.
pub open spec fn pieces_from(s: Seq<char>, c: char, start: int) -> Seq<Seq<char>>
    decreases s.len() - start,
{
    let e = index_from(s, c, start);
    if start < 0 || start > s.len() || e < start {
        Seq::empty()
    } else if e >= s.len() {
        seq![s.subrange(start, s.len() as int)]
    } else {
        seq![s.subrange(start, e)] + pieces_from(s, c, e + 1)
    }
}

/// One `key=value` piece: the key runs to the first `=`, the value to the
/// next `=` and is percent-decoded; a piece without `=` has an empty value.
pub open spec fn pair_of(piece: Seq<char>) -> (Seq<char>, Seq<char>) {
    let k = index_from(piece, '=', 0);
    if k >= piece.len() {
        (piece, Seq::empty())
    } else {
        let rest = piece.subrange(k + 1, piece.len() as int);
        (piece.subrange(0, k), percent_decoded(rest.subrange(0, index_from(rest, '=', 0))))
    }
}

/// The pair of each piece.
pub open spec fn pairs_of(pieces: Seq<Seq<char>>) -> Seq<(Seq<char>, Seq<char>)> {
    pieces.map_values(|p: Seq<char>| pair_of(p))
}

/// The pairs of a cipher blob, one for each `&`-separated piece.
pub open spec fn cipher_pairs(s: Seq<char>) -> Seq<(Seq<char>, Seq<char>)> {
    pairs_of(pieces_from(s, '&', 0))
}

/// The view of pairs of strings.
pub open spec fn pair_views(v: Seq<(String, String)>) -> Seq<(Seq<char>, Seq<char>)> {
    v.map_values(|p: (String, String)| (p.0@, p.1@))
}

/// The value of the last pair named `key`; empty where there is none.
pub open spec fn param(pairs: Seq<(Seq<char>, Seq<char>)>, key: Seq<char>) -> Seq<char>
    decreases pairs.len(),
{
    if pairs.len() == 0 {
        Seq::empty()
    } else if pairs.last().0 == key {
        pairs.last().1
    } else {
        param(pairs.drop_last(), key)
    }
}

pub(crate) proof fn lemma_index_from_bounds(s: Seq<char>, c: char, i: int)
    requires
        0 <= i <= s.len(),
    ensures
        i <= index_from(s, c, i) <= s.len(),
        index_from(s, c, i) < s.len() ==> s[index_from(s, c, i)] == c,
    decreases s.len() - i,
{
    if i < s.len() && s[i] != c {
        lemma_index_from_bounds(s, c, i + 1);
    }
}

/// The first index at or after `from` that holds `c`, or the length.
pub fn find_char(s: &str, c: char, from: usize) -> (r: usize)
    requires
        from <= s@.len(),
    ensures
        r == index_from(s@, c, from as int),
{
    let n = s.unicode_len();
    let mut i = from;
    while i < n
        invariant
            n == s@.len(),
            from <= i <= n,
            index_from(s@, c, from as int) == index_from(s@, c, i as int),
        decreases n - i,
    {
        if s.get_char(i) == c {
            return i;
        }
        i += 1;
    }
    i
}

/// Splits one piece into its key and decoded value.
pub fn parse_pair(piece: &str) -> (r: (String, String))
    ensures
        (r.0@, r.1@) == pair_of(piece@),
{
    let n = piece.unicode_len();
    let k = find_char(piece, '=', 0);
    proof {
        lemma_index_from_bounds(piece@, '=', 0);
    }
    if k >= n {
        return (String::from_str(piece), String::new());
    }
    let key = piece.substring_char(0, k);
    let rest = piece.substring_char(k + 1, n);
    let rn = rest.unicode_len();
    let e = find_char(rest, '=', 0);
    proof {
        lemma_index_from_bounds(rest@, '=', 0);
    }
    let value = rest.substring_char(0, e);
    (String::from_str(key), percent_decode(value))
}

/// Reads a cipher blob into its pairs, in order.
pub fn compat_parse_map(s: &str) -> (r: Vec<(String, String)>)
    ensures
        pair_views(r@) == cipher_pairs(s@),
{
    let n = s.unicode_len();
    let ghost all = pieces_from(s@, '&', 0);
    let mut out: Vec<(String, String)> = Vec::new();
    let mut pos: usize = 0;
    loop
        invariant
            n == s@.len(),
            pos <= n,
            all == pieces_from(s@, '&', 0),
            pair_views(out@) + pairs_of(pieces_from(s@, '&', pos as int)) == pairs_of(all),
        decreases n - pos,
    {
        let e = find_char(s, '&', pos);
        proof {
            lemma_index_from_bounds(s@, '&', pos as int);
        }
        let piece = s.substring_char(pos, e);
        let pair = parse_pair(piece);
        let ghost before = pair_views(out@);
        let ghost rest = pieces_from(s@, '&', pos as int);
        out.push(pair);
        proof {
            assert(pair_views(out@) =~= before.push(
                pair_of(piece@),
            ));
            if e >= n {
                assert(rest =~= seq![s@.subrange(pos as int, n as int)]);
                assert(pairs_of(rest) =~= seq![pair_of(piece@)]);
                assert(pieces_from(s@, '&', n as int + 1) =~= Seq::empty());
            } else {
                let tail = pieces_from(s@, '&', e as int + 1);
                assert(rest =~= seq![s@.subrange(pos as int, e as int)] + tail);
                assert(pairs_of(rest) =~= seq![pair_of(piece@)]
                    + pairs_of(tail));
            }
        }
        if e >= n {
            proof {
                assert(before + pairs_of(rest) == pairs_of(all));
                assert(before + pairs_of(rest) =~= before.push(pair_of(piece@)));
                assert(pair_views(out@) =~= pairs_of(all));
                assert(pairs_of(all) == cipher_pairs(s@));
            }
            return out;
        }
        pos = e + 1;
    }
}

/// The value of the last pair named `key`, or empty.
pub fn param_value(pairs: &Vec<(String, String)>, key: &str) -> (r: String)
    ensures
        r@ == param(pair_views(pairs@), key@),
{
    let ghost v = pair_views(pairs@);
    let k = String::from_str(key);
    let mut i = pairs.len();
    proof {
        assert(v.subrange(0, i as int) =~= v);
    }
    while i > 0
        invariant
            i <= pairs@.len(),
            v == pair_views(pairs@),
            k@ == key@,
            param(v, key@) == param(v.subrange(0, i as int), key@),
        decreases i,
    {
        let ghost pre = v.subrange(0, i as int);
        proof {
            assert(pre.drop_last() =~= v.subrange(0, i - 1));
            assert(pre.last() == (pairs@[i - 1].0@, pairs@[i - 1].1@));
        }
        if pairs[i - 1].0 == k {
            return pairs[i - 1].1.clone();
        }
        i -= 1;
    }
    proof {
        assert(v.subrange(0, 0) =~= Seq::<(Seq<char>, Seq<char>)>::empty());
    }
    String::new()
}

/// The URL of a cipher-protected stream: the base URL, then the signature
/// parameter set to the decoded signature.
pub open spec fn ciphered_url(pairs: Seq<(Seq<char>, Seq<char>)>, signature: Seq<char>) -> Seq<char> {
    param(pairs, "url"@) + "&"@ + param(pairs, "sp"@) + "="@ + signature
}

pub fn cipher_stream_url(pairs: &Vec<(String, String)>, signature: &str) -> (r: String)
    ensures
        r@ == ciphered_url(pair_views(pairs@), signature@),
{
    let base = param_value(pairs, "url");
    let sp = param_value(pairs, "sp");
    let mut r = concat3(base.as_str(), "&", sp.as_str());
    r.append("=");
    r.append(signature);
    r
}

} // verus!
