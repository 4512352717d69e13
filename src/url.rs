//! Assembly of a whole URL: base, then the interpolated path, then the query.

use vstd::prelude::*;
use vstd::string::*;
use crate::path::{SubstitutePairs, interpolated, seam_path, format_path, strip_double_slash};
use crate::query::{EncodingMode, QueryPairs, query_string, format_query};

verus! {

/// What a URL is built from, as mathematical values.
pub struct UrlParts {
    pub base: Seq<char>,
    pub path_template: Option<Seq<char>>,
    pub substitutes: Option<Seq<(Seq<char>, Seq<char>)>>,
    pub query_params: Option<Seq<(Seq<char>, Seq<char>)>>,
    pub mode: EncodingMode,
}

/// The path section before the seam is fixed: the interpolated template when
/// there are substitutions, the template itself when there are none, and
/// nothing without a template.
pub open spec fn formatted_path(
    template: Option<Seq<char>>,
    subs: Option<Seq<(Seq<char>, Seq<char>)>>,
) -> Seq<char> {
    match template {
        Some(t) => match subs {
            Some(s) => interpolated(t, s),
            None => t,
        },
        None => seq![],
    }
}

/// The query section: nothing when no parameters were given.
pub open spec fn query_section(
    params: Option<Seq<(Seq<char>, Seq<char>)>>,
    mode: EncodingMode,
) -> Seq<char> {
    match params {
        Some(p) => query_string(p, mode),
        None => seq![],
    }
}

/// The URL for `parts`: the base verbatim, the path joined at the seam, and
/// the query section.
pub open spec fn assembled(parts: UrlParts) -> Seq<char> {
    parts.base + seam_path(parts.base, formatted_path(parts.path_template, parts.substitutes))
        + query_section(parts.query_params, parts.mode)
}

/// The URL always begins with the base, verbatim.
pub proof fn lemma_url_starts_with_base(parts: UrlParts)
    ensures
        parts.base.is_prefix_of(assembled(parts)),
{
    let url = assembled(parts);
    assert(url.subrange(0, parts.base.len() as int) =~= parts.base);
}

/// With a base ending in `/` and a path template starting with `/`, the
/// character after the base's `/` is not a second `/`, unless the
/// interpolated path itself begins with `//`.
pub proof fn lemma_single_slash_at_seam(parts: UrlParts)
    requires
        parts.base.len() > 0,
        parts.base.last() == '/',
        parts.path_template is Some,
        parts.path_template->0.len() > 0,
        parts.path_template->0[0] == '/',
        !({
            let p = formatted_path(parts.path_template, parts.substitutes);
            p.len() >= 2 && p[0] == '/' && p[1] == '/'
        }),
    ensures
        ({
            let url = assembled(parts);
            let n = parts.base.len() as int;
            url[n - 1] == '/' && !(url.len() > n && url[n] == '/')
        }),
{
    let url = assembled(parts);
    let n = parts.base.len() as int;
    let p = formatted_path(parts.path_template, parts.substitutes);
    let sp = seam_path(parts.base, p);
    let q = query_section(parts.query_params, parts.mode);
    assert(url[n - 1] == parts.base[n - 1]);
    if url.len() > n {
        if sp.len() > 0 {
            assert(url[n] == sp[0]);
            if p.len() > 0 && p[0] == '/' {
                assert(sp[0] == p[1]);
            }
        } else {
            assert(url[n] == q[0]);
            if parts.query_params is Some && parts.query_params->0.len() > 0 {
                assert(q[0] == '?');
            }
        }
    }
}

/// Without query parameters, or with an empty list of them, the URL holds
/// no `?` unless the base or the interpolated path brings one.
pub proof fn lemma_no_query_no_question_mark(parts: UrlParts)
    requires
        parts.query_params is None || parts.query_params->0.len() == 0,
        !parts.base.contains('?'),
        !formatted_path(parts.path_template, parts.substitutes).contains('?'),
    ensures
        !assembled(parts).contains('?'),
{
    let url = assembled(parts);
    let n = parts.base.len() as int;
    let p = formatted_path(parts.path_template, parts.substitutes);
    let sp = seam_path(parts.base, p);
    assert(query_section(parts.query_params, parts.mode) =~= Seq::<char>::empty());
    assert(url =~= parts.base + sp);
    assert forall|i: int| 0 <= i < url.len() implies url[i] != '?' by {
        if i < n {
            assert(url[i] == parts.base[i]);
        } else if sp.len() < p.len() {
            assert(url[i] == p[i - n + 1]);
        } else {
            assert(url[i] == p[i - n]);
        }
    }
}

fn assemble(
    base: &str,
    path_template: Option<&str>,
    substitutes: &Option<SubstitutePairs>,
    query_params: &Option<QueryPairs>,
    mode: EncodingMode,
) -> (r: String)
    ensures
        r@ == assembled(
            (UrlParts {
                base: base@,
                path_template: path_template.deep_view(),
                substitutes: substitutes.deep_view(),
                query_params: query_params.deep_view(),
                mode,
            }),
        ),
{
    let path = match path_template {
        Some(t) => match substitutes {
            Some(s) => format_path(t, s),
            None => String::from_str(t),
        },
        None => String::new(),
    };
    let query = match query_params {
        Some(p) => format_query(p, mode),
        None => String::new(),
    };
    let mut url = String::from_str(base);
    url.append(strip_double_slash(base, path.as_str()));
    url.append(query.as_str());
    url
}

/// Builds the URL for `base_url`, `path_template`, optional query parameters
/// (percent-encoded) and optional path substitutions.
pub fn format_url(
    base_url: &str,
    path_template: &str,
    query_params: Option<QueryPairs>,
    substitutes: Option<SubstitutePairs>,
) -> (r: String)
    ensures
        r@ == assembled(
            (UrlParts {
                base: base_url@,
                path_template: Some(path_template@),
                substitutes: substitutes.deep_view(),
                query_params: query_params.deep_view(),
                mode: EncodingMode::Encode,
            }),
        ),
{
    assemble(base_url, Some(path_template), &substitutes, &query_params, EncodingMode::Encode)
}

/// A builder for one URL: set the optional pieces, then call `format_url`.
pub struct FormatUrlV2<'a> {
    base: &'a str,
    path_template: Option<&'a str>,
    query_params: Option<QueryPairs<'a>>,
    substitutes: Option<SubstitutePairs<'a>>,
    mode: EncodingMode,
}

impl<'a> View for FormatUrlV2<'a> {
    type V = UrlParts;

    closed spec fn view(&self) -> UrlParts {
        UrlParts {
            base: self.base@,
            path_template: self.path_template.deep_view(),
            substitutes: self.substitutes.deep_view(),
            query_params: self.query_params.deep_view(),
            mode: self.mode,
        }
    }
}

impl<'a> FormatUrlV2<'a> {
    /// A builder over `base` with no path, no substitutions, no query and
    /// encoding switched on.
    pub fn new(base: &'a str) -> (r: Self)
        ensures
            r@ == (UrlParts {
                base: base@,
                path_template: None,
                substitutes: None,
                query_params: None,
                mode: EncodingMode::Encode,
            }),
    {
        FormatUrlV2 {
            base,
            path_template: None,
            query_params: None,
            substitutes: None,
            mode: EncodingMode::Encode,
        }
    }

    /// Sets the path template.
    pub fn with_path_template(self, path_template: &'a str) -> (r: Self)
        ensures
            r@ == (UrlParts { path_template: Some(path_template@), ..self@ }),
    {
        FormatUrlV2 { path_template: Some(path_template), ..self }
    }

    /// Sets the query parameters, kept in the given order.
    pub fn with_query_params(self, params: QueryPairs<'a>) -> (r: Self)
        ensures
            r@ == (UrlParts { query_params: Some(params.deep_view()), ..self@ }),
    {
        FormatUrlV2 { query_params: Some(params), ..self }
    }

    /// Sets the path substitutions, applied in the given order.
    pub fn with_substitutes(self, substitutes: SubstitutePairs<'a>) -> (r: Self)
        ensures
            r@ == (UrlParts { substitutes: Some(substitutes.deep_view()), ..self@ }),
    {
        FormatUrlV2 { substitutes: Some(substitutes), ..self }
    }

    /// Sets how the query section is written; the path is always encoded.
    pub fn with_encoding_mode(self, mode: EncodingMode) -> (r: Self)
        ensures
            r@ == (UrlParts { mode, ..self@ }),
    {
        FormatUrlV2 { mode, ..self }
    }

    /// Builds the URL: base, then the path joined at the seam, then the query.
    pub fn format_url(self) -> (r: String)
        ensures
            r@ == assembled(self@),
    {
        assemble(self.base, self.path_template, &self.substitutes, &self.query_params, self.mode)
    }
}

} // verus!
