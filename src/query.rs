//! The query section of a URL: `?` followed by `key=value` pairs joined by `&`.

use vstd::prelude::*;
use vstd::string::*;
use crate::encoding::{encoded, encode_component, is_alnum_char, lemma_encoded_charset};

verus! {

/// Ordered query `(key, value)` pairs, borrowed from the caller.
pub type QueryPairs<'a> = Vec<(&'a str, &'a str)>;

/// How query keys and values are written out.
#[derive(PartialEq, Eq, Structural, Clone, Copy, Debug)]
pub enum EncodingMode {
    /// Keys and values are percent-encoded.
    Encode,
    /// Keys and values are copied verbatim.
    Raw,
}

/// One pair as written in the query: `key=value`, encoded unless raw.
pub open spec fn query_pair(pair: (Seq<char>, Seq<char>), mode: EncodingMode) -> Seq<char> {
    match mode {
        EncodingMode::Encode => encoded(pair.0) + seq!['='] + encoded(pair.1),
        EncodingMode::Raw => pair.0 + seq!['='] + pair.1,
    }
}

/// The pairs written out in order and joined by `&`.
pub open spec fn query_body(pairs: Seq<(Seq<char>, Seq<char>)>, mode: EncodingMode) -> Seq<char>
    decreases pairs.len(),
{
    if pairs.len() == 0 {
        seq![]
    } else if pairs.len() == 1 {
        query_pair(pairs[0], mode)
    } else {
        query_body(pairs.drop_last(), mode) + seq!['&'] + query_pair(pairs.last(), mode)
    }
}

/// The query section: empty for no pairs, else `?` and the body.
pub open spec fn query_string(pairs: Seq<(Seq<char>, Seq<char>)>, mode: EncodingMode) -> Seq<char> {
    if pairs.len() == 0 {
        seq![]
    } else {
        seq!['?'] + query_body(pairs, mode)
    }
}

/// Writes `params` as a query section: nothing when there are no pairs,
/// else `?` followed by `key=value` for each pair in order, joined by `&`.
pub fn format_query(params: &QueryPairs, mode: EncodingMode) -> (r: String)
    ensures
        r@ == query_string(params.deep_view(), mode),
{
    let ghost ps = params.deep_view();
    let mut body = String::new();
    let mut k: usize = 0;
    assert(ps.take(0) =~= Seq::<(Seq<char>, Seq<char>)>::empty());
    while k < params.len()
        invariant
            k <= params@.len(),
            ps == params.deep_view(),
            body@ == query_body(ps.take(k as int), mode),
        decreases params@.len() - k,
    {
        let (key, value) = params[k];
        assert(ps[k as int] == (key@, value@));
        let ghost before = body@;
        proof {
            reveal_strlit("&");
            reveal_strlit("=");
        }
        if k > 0 {
            body.append("&");
        }
        match mode {
            EncodingMode::Encode => {
                let ek = encode_component(key);
                let ev = encode_component(value);
                body.append(ek.as_str());
                body.append("=");
                body.append(ev.as_str());
            },
            EncodingMode::Raw => {
                body.append(key);
                body.append("=");
                body.append(value);
            },
        }
        k = k + 1;
        assert(ps.take(k as int).drop_last() =~= ps.take(k - 1));
        if k == 1 {
            assert(body@ =~= query_pair(ps[0], mode));
        } else {
            assert(body@ =~= before + seq!['&'] + query_pair(ps[k - 1], mode));
        }
    }
    assert(ps.take(k as int) =~= ps);
    if k == 0 {
        String::new()
    } else {
        let mut r = String::from_str("?");
        proof {
            reveal_strlit("?");
        }
        r.append(body.as_str());
        r
    }
}

/// A character that an encoded query body may hold: a letter, a digit, or
/// one of `%`, `=` and `&`.
pub open spec fn is_query_char(c: char) -> bool {
    is_alnum_char(c) || c == '%' || c == '=' || c == '&'
}

/// In encode mode the query body holds only letters, digits, `%`, `=` and
/// `&`, whatever the keys and values.
pub proof fn lemma_encoded_query_charset(pairs: Seq<(Seq<char>, Seq<char>)>)
    ensures
        forall|i: int|
            0 <= i < query_body(pairs, EncodingMode::Encode).len() ==> is_query_char(
                #[trigger] query_body(pairs, EncodingMode::Encode)[i],
            ),
    decreases pairs.len(),
{
    let mode = EncodingMode::Encode;
    if pairs.len() > 0 {
        let last = pairs.last();
        lemma_encoded_charset(last.0);
        lemma_encoded_charset(last.1);
        let p = query_pair(last, mode);
        let ek = encoded(last.0);
        let ev = encoded(last.1);
        assert forall|i: int| 0 <= i < p.len() implies is_query_char(#[trigger] p[i]) by {
            if i < ek.len() {
                assert(p[i] == ek[i]);
            } else if i > ek.len() {
                assert(p[i] == ev[i - ek.len() - 1]);
            }
        }
        if pairs.len() == 1 {
            assert(pairs[0] == last);
        } else {
            let init = pairs.drop_last();
            lemma_encoded_query_charset(init);
            let b = query_body(init, mode);
            let body = query_body(pairs, mode);
            assert forall|i: int| 0 <= i < body.len() implies is_query_char(#[trigger] body[i]) by {
                if i < b.len() {
                    assert(body[i] == b[i]);
                } else if i > b.len() {
                    assert(body[i] == p[i - b.len() - 1]);
                }
            }
        }
    }
}

} // verus!
