//! Placeholder interpolation in path templates and the base/path slash seam.

use vstd::prelude::*;
use vstd::string::*;
use crate::encoding::{encoded, encode_component};

verus! {

/// Ordered `(key, value)` pairs, borrowed from the caller.
pub type SubstitutePairs<'a> = Vec<(&'a str, &'a str)>;

/// `s` with every non-overlapping occurrence of `pat`, scanned left to right,
/// replaced by `rep`.
pub open spec fn replaced(s: Seq<char>, pat: Seq<char>, rep: Seq<char>) -> Seq<char>
    decreases s.len(),
{
    if pat.len() == 0 || s.len() < pat.len() {
        s
    } else if s.take(pat.len() as int) == pat {
        rep + replaced(s.skip(pat.len() as int), pat, rep)
    } else {
        seq![s[0]] + replaced(s.skip(1), pat, rep)
    }
}

/// The placeholder text that a key matches: `:` followed by the key.
pub open spec fn placeholder(key: Seq<char>) -> Seq<char> {
    seq![':'] + key
}

/// The template after applying each substitution in order, each one to the
/// result of the ones before it.
pub open spec fn interpolated(template: Seq<char>, subs: Seq<(Seq<char>, Seq<char>)>) -> Seq<char>
    decreases subs.len(),
{
    if subs.len() == 0 {
        template
    } else {
        replaced(
            interpolated(template, subs.drop_last()),
            placeholder(subs.last().0),
            encoded(subs.last().1),
        )
    }
}

/// The path as joined to `base`: one leading `/` dropped when `base` already
/// ends in one.
pub open spec fn seam_path(base: Seq<char>, path: Seq<char>) -> Seq<char> {
    if base.len() > 0 && base.last() == '/' && path.len() > 0 && path[0] == '/' {
        path.skip(1)
    } else {
        path
    }
}

/// Whether `pat` occurs somewhere in `s`.
pub open spec fn occurs_in(pat: Seq<char>, s: Seq<char>) -> bool {
    exists|j: int| 0 <= j && j + pat.len() <= s.len() && #[trigger] s.subrange(j, j + pat.len()) == pat
}

/// Replacing a pattern that does not occur leaves the text unchanged.
pub proof fn lemma_replace_absent(s: Seq<char>, pat: Seq<char>, rep: Seq<char>)
    requires
        pat.len() > 0,
        !occurs_in(pat, s),
    ensures
        replaced(s, pat, rep) == s,
    decreases s.len(),
{
    if s.len() >= pat.len() {
        assert(s.subrange(0int, 0int + pat.len()) =~= s.take(pat.len() as int));
        assert(s.take(pat.len() as int) != pat);
        let rest = s.skip(1);
        assert forall|j: int| 0 <= j && j + pat.len() <= rest.len() implies #[trigger] rest.subrange(
            j,
            j + pat.len(),
        ) != pat by {
            assert(rest.subrange(j, j + pat.len()) =~= s.subrange(j + 1, j + 1 + pat.len()));
        }
        lemma_replace_absent(rest, pat, rep);
        assert(seq![s[0]] + rest =~= s);
    }
}

/// Substitutions whose keys appear nowhere in the template leave it
/// verbatim.
pub proof fn lemma_unmatched_keys_keep_template(
    template: Seq<char>,
    subs: Seq<(Seq<char>, Seq<char>)>,
)
    requires
        forall|i: int| 0 <= i < subs.len() ==> !occurs_in(placeholder(#[trigger] subs[i].0), template),
    ensures
        interpolated(template, subs) == template,
    decreases subs.len(),
{
    if subs.len() > 0 {
        let init = subs.drop_last();
        assert forall|i: int| 0 <= i < init.len() implies !occurs_in(
            placeholder(#[trigger] init[i].0),
            template,
        ) by {
            assert(init[i] == subs[i]);
        }
        lemma_unmatched_keys_keep_template(template, init);
        lemma_replace_absent(template, placeholder(subs.last().0), encoded(subs.last().1));
    }
}

/// The characters of `s`, in a vector.
fn chars_of(s: &str) -> (r: Vec<char>)
    ensures
        r@ == s@,
{
    let n = s.unicode_len();
    let mut r: Vec<char> = Vec::new();
    let mut i: usize = 0;
    while i < n
        invariant
            i <= n,
            n == s@.len(),
            r@ == s@.take(i as int),
        decreases n - i,
    {
        r.push(s.get_char(i));
        i = i + 1;
        assert(r@ =~= s@.take(i as int));
    }
    assert(r@ =~= s@);
    r
}

/// Whether `pat` occurs in `text` at position `at`.
fn matches_at(text: &Vec<char>, pat: &Vec<char>, at: usize) -> (r: bool)
    requires
        at + pat@.len() <= text@.len(),
    ensures
        r == (text@.subrange(at as int, at + pat@.len()) == pat@),
{
    let m = pat.len();
    let mut j: usize = 0;
    while j < m
        invariant
            j <= m,
            m == pat@.len(),
            at + m <= text.len(),
            text@.subrange(at as int, at + j) == pat@.take(j as int),
        decreases m - j,
    {
        if text[at + j] != pat[j] {
            assert(text@.subrange(at as int, at + m)[j as int] != pat@[j as int]);
            return false;
        }
        j = j + 1;
        assert(text@.subrange(at as int, at + j) =~= pat@.take(j as int));
    }
    assert(pat@.take(m as int) =~= pat@);
    true
}

/// Replaces every non-overlapping occurrence of `pat` in `s`, scanning left
/// to right, with `rep`.
pub fn replace_all(s: &str, pat: &str, rep: &str) -> (r: String)
    requires
        pat@.len() > 0,
    ensures
        r@ == replaced(s@, pat@, rep@),
{
    let text = chars_of(s);
    let p = chars_of(pat);
    let n = text.len();
    let m = p.len();
    let mut out = String::new();
    let mut start: usize = 0;
    let mut i: usize = 0;
    assert(s@.skip(0) =~= s@);
    assert(out@ + s@.subrange(0, 0) =~= Seq::<char>::empty());
    while i < n
        invariant
            start <= i <= n,
            n == s@.len(),
            m == pat@.len(),
            m > 0,
            text@ == s@,
            p@ == pat@,
            out@ + s@.subrange(start as int, i as int) + replaced(s@.skip(i as int), pat@, rep@)
                == replaced(s@, pat@, rep@),
        decreases n - i,
    {
        let ghost rest = s@.skip(i as int);
        if n - i >= m && matches_at(&text, &p, i) {
            assert(rest.take(m as int) =~= s@.subrange(i as int, i + m));
            assert(rest.skip(m as int) =~= s@.skip(i + m));
            out.append(s.substring_char(start, i));
            out.append(rep);
            i = i + m;
            start = i;
            assert(s@.subrange(start as int, i as int) =~= Seq::<char>::empty());
        } else {
            if n - i >= m {
                assert(rest.take(m as int) =~= s@.subrange(i as int, i + m));
            } else {
                assert(s@.skip(i + 1).len() < m);
            }
            assert(rest.skip(1) =~= s@.skip(i + 1));
            assert(s@.subrange(start as int, i + 1) =~= s@.subrange(start as int, i as int)
                + seq![s@[i as int]]);
            i = i + 1;
        }
    }
    assert(s@.skip(n as int) =~= Seq::<char>::empty());
    out.append(s.substring_char(start, n));
    out
}

/// Drops one leading `/` of `route_template` when `base_url` ends in `/`
/// and the template starts with `/`, so that the seam holds one slash.
pub fn strip_double_slash<'a>(base_url: &str, route_template: &'a str) -> (r: &'a str)
    ensures
        r@ == seam_path(base_url@, route_template@),
{
    let nb = base_url.unicode_len();
    let nr = route_template.unicode_len();
    if nb > 0 && base_url.get_char(nb - 1) == '/' && nr > 0 && route_template.get_char(0) == '/' {
        route_template.substring_char(1, nr)
    } else {
        route_template
    }
}

/// Applies each substitution in order: every `:key` in the path built so far
/// becomes the percent-encoded value.
pub fn format_path(route_template: &str, substitutes: &SubstitutePairs) -> (r: String)
    ensures
        r@ == interpolated(route_template@, substitutes.deep_view()),
{
    let ghost subs = substitutes.deep_view();
    let mut route = String::from_str(route_template);
    let mut k: usize = 0;
    assert(subs.take(0) =~= Seq::<(Seq<char>, Seq<char>)>::empty());
    while k < substitutes.len()
        invariant
            k <= substitutes@.len(),
            subs == substitutes.deep_view(),
            route@ == interpolated(route_template@, subs.take(k as int)),
        decreases substitutes@.len() - k,
    {
        let (key, value) = substitutes[k];
        assert(subs[k as int] == (key@, value@));
        let mut pat = String::from_str(":");
        proof {
            reveal_strlit(":");
        }
        pat.append(key);
        assert(pat@ =~= placeholder(key@));
        let enc = encode_component(value);
        route = replace_all(route.as_str(), pat.as_str(), enc.as_str());
        k = k + 1;
        assert(subs.take(k as int).drop_last() =~= subs.take(k - 1));
    }
    assert(subs.take(k as int) =~= subs);
    route
}

} // verus!
