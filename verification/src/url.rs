use vstd::prelude::*;

verus! {

/// The parts of a parsed URL that this library reads.
#[derive(Debug)]
pub struct UrlParts {
    pub scheme: String,
    pub host: Option<String>,
    pub port: Option<u16>,
    pub path: String,
    pub query: Vec<(String, String)>,
}

pub struct UrlPartsView {
    pub scheme: Seq<char>,
    pub host: Option<Seq<char>>,
    pub port: Option<u16>,
    pub path: Seq<char>,
    pub query: Seq<(Seq<char>, Seq<char>)>,
}

pub open spec fn pair_views(v: Seq<(String, String)>) -> Seq<(Seq<char>, Seq<char>)> {
    v.map_values(|p: (String, String)| (p.0@, p.1@))
}

pub open spec fn opt_text(o: Option<String>) -> Option<Seq<char>> {
    match o {
        Some(s) => Some(s@),
        None => None,
    }
}

impl View for UrlParts {
    type V = UrlPartsView;

    open spec fn view(&self) -> UrlPartsView {
        UrlPartsView {
            scheme: self.scheme@,
            host: opt_text(self.host),
            port: self.port,
            path: self.path@,
            query: pair_views(self.query@),
        }
    }
}

pub open spec fn url_result_view(o: Result<UrlParts, String>) -> Result<UrlPartsView, Seq<char>> {
    match o {
        Ok(u) => Ok(u@),
        Err(e) => Err(e@),
    }
}

/// What the WHATWG URL parser of the `url` crate (`reqwest::Url::parse`)
/// makes of a text: its scheme, host, port (or the scheme's known default),
/// path and decoded query pairs, or the parser's error message where it
/// refuses the text.
pub uninterp spec fn url_parts(s: Seq<char>) -> Result<UrlPartsView, Seq<char>>;

/// The URL `base` with `pairs` appended to its query, form-encoded, as
/// `Url::query_pairs_mut().extend_pairs` serializes them, or the parser's
/// error message where it refuses `base`.
pub uninterp spec fn url_with_query_text(
    base: Seq<char>,
    pairs: Seq<(Seq<char>, Seq<char>)>,
) -> Result<Seq<char>, Seq<char>>;

pub open spec fn text_result(r: Result<String, String>) -> Result<Seq<char>, Seq<char>> {
    match r {
        Ok(s) => Ok(s@),
        Err(e) => Err(e@),
    }
}

/// Parses a URL with `reqwest::Url::parse` and reads its parts.
#[verifier::external_body]
pub(crate) fn parse_url(s: &str) -> (r: Result<UrlParts, String>)
    ensures
        url_result_view(r) == url_parts(s@),
{
    let url = reqwest::Url::parse(s).map_err(|error| error.to_string())?;
    Ok(UrlParts {
        scheme: url.scheme().to_owned(),
        host: url.host_str().map(str::to_owned),
        port: url.port_or_known_default(),
        path: url.path().to_owned(),
        query: url.query_pairs().into_owned().collect(),
    })
}

/// Parses `base` with `reqwest::Url::parse` and appends form-encoded query
/// pairs to it with `query_pairs_mut().extend_pairs`. Appending cannot fail,
/// so the call fails exactly when the parse of `base` does, with the same
/// message that `parse_url` gives.
#[verifier::external_body]
pub(crate) fn url_with_query(base: &str, pairs: &Vec<(String, String)>) -> (r: Result<String, String>)
    ensures
        text_result(r) == url_with_query_text(base@, pair_views(pairs@)),
        match url_parts(base@) {
            Ok(_) => r is Ok,
            Err(m) => r matches Err(e) && e@ == m,
        },
{
    let mut url = reqwest::Url::parse(base).map_err(|error| error.to_string())?;
    url.query_pairs_mut().extend_pairs(pairs.iter().map(|(k, v)| (k.as_str(), v.as_str())));
    Ok(url.into())
}

} // verus!
