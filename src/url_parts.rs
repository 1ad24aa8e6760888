//! A URL taken apart into plain values, and the calls into the `url` crate
//! that parse, join and take apart URLs.
use vstd::prelude::*;

verus! {

/// The views of a sequence of strings.
pub open spec fn seq_views(v: Seq<String>) -> Seq<Seq<char>> {
    v.map_values(|s: String| s@)
}

/// What the resolver reads of a parsed URL.
pub struct UrlParts {
    /// The URL's serialization.
    pub text: String,
    pub scheme: String,
    pub host: Option<String>,
    pub port: Option<u16>,
    /// The path's segments; `None` for a URL that cannot be a base.
    pub segments: Option<Vec<String>>,
    /// The local path of a `file` URL.
    pub file_path: Option<String>,
}

/// The scheme of local files.
pub open spec fn file_scheme() -> Seq<char> {
    seq!['f', 'i', 'l', 'e']
}

/// The views of an optional string.
pub open spec fn opt_view(o: Option<String>) -> Option<Seq<char>> {
    match o {
        Some(s) => Some(s@),
        None => None,
    }
}

/// The views of an optional sequence of strings.
pub open spec fn opt_seq_views(o: Option<Vec<String>>) -> Option<Seq<Seq<char>>> {
    match o {
        Some(v) => Some(seq_views(v@)),
        None => None,
    }
}

/// The serialization of the `file` URL for the local path `p`, if it has one.
pub uninterp spec fn url_from_file(p: Seq<char>) -> Option<Seq<char>>;

/// The serialization of the `file` URL for the local directory `p`, if it has one.
pub uninterp spec fn url_from_dir(p: Seq<char>) -> Option<Seq<char>>;

/// The serialization of the reference `rel` resolved against the URL `base`.
pub uninterp spec fn url_join(base: Seq<char>, rel: Seq<char>) -> Option<Seq<char>>;

/// The serialization of the URL that `u` parses to, if it parses.
pub uninterp spec fn url_parse(u: Seq<char>) -> Option<Seq<char>>;

/// The scheme of the URL that `u` parses to.
pub uninterp spec fn url_scheme(u: Seq<char>) -> Seq<char>;

/// The host of the URL that `u` parses to.
pub uninterp spec fn url_host(u: Seq<char>) -> Option<Seq<char>>;

/// The port of the URL that `u` parses to, when it is not the scheme's default.
pub uninterp spec fn url_port(u: Seq<char>) -> Option<u16>;

/// The path segments of the URL that `u` parses to.
pub uninterp spec fn url_segments(u: Seq<char>) -> Option<Seq<Seq<char>>>;

/// The local path of the URL that `u` parses to.
pub uninterp spec fn url_file_path(u: Seq<char>) -> Option<Seq<char>>;

/// Relies on `url::Url::from_file_path`, which accepts exactly the absolute
/// paths, and `Url::as_str` for the result.
#[verifier::external_body]
pub(crate) fn file_url(p: &str) -> (r: Option<String>)
    ensures
        opt_view(r) == url_from_file(p@),
        r is Some <==> (p@.len() > 0 && p@[0] == '/'),
        r is Some ==> url_scheme(r->0@) == file_scheme(),
{
    url::Url::from_file_path(p).ok().map(|u| u.as_str().to_string())
}

/// Relies on `url::Url::from_directory_path`, which accepts exactly the
/// absolute paths, and `Url::as_str` for the result.
#[verifier::external_body]
pub(crate) fn dir_url(p: &str) -> (r: Option<String>)
    ensures
        opt_view(r) == url_from_dir(p@),
        r is Some <==> (p@.len() > 0 && p@[0] == '/'),
{
    url::Url::from_directory_path(p).ok().map(|u| u.as_str().to_string())
}

/// Relies on `url::Url::parse` of the base and `Url::join`, which resolves
/// a relative reference against it.
#[verifier::external_body]
pub(crate) fn join_url(base: &str, rel: &str) -> (r: Option<String>)
    ensures
        opt_view(r) == url_join(base@, rel@),
{
    url::Url::parse(base).and_then(|b| b.join(rel)).ok().map(|u| u.as_str().to_string())
}

/// Relies on `url::Url::parse`, then on the accessors `as_str`, `scheme`,
/// `host_str`, `port`, `path_segments` and `to_file_path` of the result.
#[verifier::external_body]
pub(crate) fn url_parts(u: &str) -> (r: Option<UrlParts>)
    ensures
        r is Some <==> url_parse(u@) is Some,
        r is Some ==> url_parse(u@) == Some(r->0.text@),
        r is Some ==> r->0.scheme@ == url_scheme(u@),
        r is Some ==> opt_view(r->0.host) == url_host(u@),
        r is Some ==> r->0.port == url_port(u@),
        r is Some ==> opt_seq_views(r->0.segments) == url_segments(u@),
        r is Some ==> opt_view(r->0.file_path) == url_file_path(u@),
{
    let x = url::Url::parse(u).ok()?;
    Some(UrlParts {
        text: x.as_str().to_string(),
        scheme: x.scheme().to_string(),
        host: x.host_str().map(|h| h.to_string()),
        port: x.port(),
        segments: x.path_segments().map(|s| s.map(|p| p.to_string()).collect()),
        file_path: x.to_file_path().ok().and_then(|p| p.to_str().map(|t| t.to_string())),
    })
}

impl UrlParts {
    /// Parses `u` and takes the URL apart; `None` when it does not parse.
    pub fn parse(u: &str) -> (r: Option<UrlParts>)
        ensures
            r is Some <==> url_parse(u@) is Some,
            r is Some ==> url_parse(u@) == Some(r->0.text@) && r->0.scheme@ == url_scheme(u@)
                && opt_view(r->0.host) == url_host(u@) && r->0.port == url_port(u@)
                && opt_seq_views(r->0.segments) == url_segments(u@) && opt_view(r->0.file_path)
                == url_file_path(u@),
    {
        url_parts(u)
    }
}

} // verus!
