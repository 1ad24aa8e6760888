//! Module resolution: from a specifier and the file that imports it to the
//! module's name and the local file that holds its text.
use vstd::prelude::*;
use crate::codec::{cache_filename, decode_path, get_cache_filename, is_remote, is_remote_spec};
use crate::text::same_text;
use crate::url_parts::{
    dir_url, file_scheme, file_url, join_url, opt_seq_views, opt_view, url_file_path, url_from_dir,
    url_from_file, url_host, url_join, url_parse, url_parts, url_port, url_scheme,
    url_segments, UrlParts,
};

verus! {

/// A resolution fails when a specifier or a base is not a URL that can be used.
#[derive(Debug, PartialEq, Eq, Structural)]
pub struct UrlParseError;

/// How a specifier is resolved against the file that imports it.
#[derive(Debug, Clone, Copy, PartialEq, Eq, Structural)]
pub enum ResolveMode {
    /// The specifier stands alone: the importer is the entry sentinel, or the
    /// specifier is remote or an absolute local path.
    Direct,
    /// The importer names a directory, to which the specifier is appended.
    Directory,
    /// The specifier is resolved relative to the importing file.
    File,
}

/// The importer of entry modules.
pub open spec fn entry_sentinel() -> Seq<char> {
    seq!['.']
}

/// A local path is absolute when it begins at the root.
pub open spec fn is_absolute_spec(p: Seq<char>) -> bool {
    p.len() > 0 && p[0] == '/'
}

/// How `specifier` is resolved against `cont`.
pub open spec fn mode_of(specifier: Seq<char>, cont: Seq<char>) -> ResolveMode {
    if cont == entry_sentinel() || is_remote_spec(specifier) || is_absolute_spec(specifier) {
        ResolveMode::Direct
    } else if cont.len() > 0 && cont.last() == '/' {
        ResolveMode::Directory
    } else {
        ResolveMode::File
    }
}

/// The URL that `specifier` names when imported from `cont`, before it is parsed.
pub open spec fn target_url(specifier: Seq<char>, cont: Seq<char>) -> Option<Seq<char>> {
    match mode_of(specifier, cont) {
        ResolveMode::Direct => if is_remote_spec(specifier) {
            Some(specifier)
        } else {
            url_from_file(specifier)
        },
        ResolveMode::Directory => match url_from_dir(cont) {
            Some(b) => url_join(b, specifier),
            None => None,
        },
        ResolveMode::File => {
            let base = if is_remote_spec(cont) {
                Some(cont)
            } else {
                url_from_file(cont)
            };
            match base {
                Some(b) => url_join(b, specifier),
                None => None,
            }
        },
    }
}

/// The module name and file of a parsed URL with these parts: a local file
/// is its own name; a remote module is named by its URL and kept under `deps`.
pub open spec fn location(
    deps: Seq<char>,
    text: Seq<char>,
    scheme: Seq<char>,
    host: Option<Seq<char>>,
    port: Option<u16>,
    segs: Option<Seq<Seq<char>>>,
    file_path: Option<Seq<char>>,
) -> Option<(Seq<char>, Seq<char>)> {
    if scheme == file_scheme() {
        match file_path {
            Some(p) => Some((p, p)),
            None => None,
        }
    } else {
        match (host, segs) {
            (Some(h), Some(s)) => Some((text, cache_filename(deps, h, port, s))),
            _ => None,
        }
    }
}

/// What `specifier` imported from `cont` resolves to, with `deps` the directory of
/// remote modules.
pub open spec fn resolved(deps: Seq<char>, specifier: Seq<char>, cont: Seq<char>) -> Option<
    (Seq<char>, Seq<char>),
> {
    let s = decode_path(deps, specifier);
    let c = decode_path(deps, cont);
    match target_url(s, c) {
        Some(u) => match url_parse(u) {
            Some(text) => location(
                deps,
                text,
                url_scheme(u),
                url_host(u),
                url_port(u),
                url_segments(u),
                url_file_path(u),
            ),
            None => None,
        },
        None => None,
    }
}

/// The views of a resolution's result.
pub open spec fn result_view(r: Result<(String, String), UrlParseError>) -> Option<
    (Seq<char>, Seq<char>),
> {
    match r {
        Ok((a, b)) => Some((a@, b@)),
        Err(_) => None,
    }
}

/// Chooses how `specifier` is resolved against `cont`.
pub fn resolve_mode(specifier: &str, cont: &str) -> (r: ResolveMode)
    ensures
        r == mode_of(specifier@, cont@),
{
    proof {
        reveal_strlit(".");
    }
    assert("."@ =~= entry_sentinel());
    let n = specifier.unicode_len();
    let absolute = n > 0 && specifier.get_char(0) == '/';
    if same_text(cont, ".") || is_remote(specifier) || absolute {
        ResolveMode::Direct
    } else {
        let m = cont.unicode_len();
        if m > 0 && cont.get_char(m - 1) == '/' {
            ResolveMode::Directory
        } else {
            ResolveMode::File
        }
    }
}

/// Builds the URL that `specifier` names when imported from `cont`.
fn target(specifier: &str, cont: &str) -> (r: Option<String>)
    ensures
        opt_view(r) == target_url(specifier@, cont@),
        is_absolute_spec(specifier@) ==> r is Some && url_scheme(r->0@) == file_scheme(),
{
    match resolve_mode(specifier, cont) {
        ResolveMode::Direct => if is_remote(specifier) {
            Some(String::from_str(specifier))
        } else {
            file_url(specifier)
        },
        ResolveMode::Directory => match dir_url(cont) {
            Some(b) => join_url(b.as_str(), specifier),
            None => None,
        },
        ResolveMode::File => {
            let base = if is_remote(cont) {
                Some(String::from_str(cont))
            } else {
                file_url(cont)
            };
            match base {
                Some(b) => join_url(b.as_str(), specifier),
                None => None,
            }
        },
    }
}

/// The module name and local file of the parsed URL `url`, with `deps` the
/// directory of remote modules; `None` for a `file` URL without a local path
/// and for another URL without a host or path segments.
pub fn locate(deps: &str, url: &UrlParts) -> (r: Option<(String, String)>)
    ensures
        match r {
            Some((a, b)) => location(
                deps@,
                url.text@,
                url.scheme@,
                opt_view(url.host),
                url.port,
                opt_seq_views(url.segments),
                opt_view(url.file_path),
            ) == Some((a@, b@)),
            None => location(
                deps@,
                url.text@,
                url.scheme@,
                opt_view(url.host),
                url.port,
                opt_seq_views(url.segments),
                opt_view(url.file_path),
            ) is None,
        },
{
    proof {
        reveal_strlit("file");
    }
    assert("file"@ =~= file_scheme());
    if same_text(url.scheme.as_str(), "file") {
        match &url.file_path {
            Some(p) => Some((p.clone(), p.clone())),
            None => None,
        }
    } else {
        match get_cache_filename(deps, url) {
            Some(f) => Some((url.text.clone(), f)),
            None => None,
        }
    }
}

/// Resolves `specifier` imported from `cont`, with `deps` the directory of remote
/// modules.
pub fn resolve(deps: &str, specifier: &str, cont: &str) -> (r: Result<(String, String), UrlParseError>)
    ensures
        result_view(r) == resolved(deps@, specifier@, cont@),
        is_absolute_spec(decode_path(deps@, specifier@)) ==> (r matches Ok((name, file)) ==> name@
            == file@),
{
    let s = crate::codec::decode_file_url(deps, specifier);
    let c = crate::codec::decode_file_url(deps, cont);
    let u = match target(s.as_str(), c.as_str()) {
        Some(u) => u,
        None => return Err(UrlParseError),
    };
    let parts = match url_parts(u.as_str()) {
        Some(p) => p,
        None => return Err(UrlParseError),
    };
    match locate(deps, &parts) {
        Some(pair) => Ok(pair),
        None => Err(UrlParseError),
    }
}

/// Resolution depends on its inputs alone: two resolutions of the same
/// specifier from the same importer against the same deps directory agree.
pub proof fn lemma_resolve_deterministic(
    deps: Seq<char>,
    specifier: Seq<char>,
    cont: Seq<char>,
    r1: Result<(String, String), UrlParseError>,
    r2: Result<(String, String), UrlParseError>,
)
    requires
        result_view(r1) == resolved(deps, specifier, cont),
        result_view(r2) == resolved(deps, specifier, cont),
    ensures
        result_view(r1) == result_view(r2),
{
}

} // verus!
