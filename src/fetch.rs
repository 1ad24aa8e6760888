//! The decisions around loading a module's source text and its compiled
//! output. The reads, writes and downloads themselves are the caller's: each
//! decision takes what an I/O step reported and says what comes next.
use vstd::prelude::*;
use crate::codec::{is_remote, is_remote_spec};
use crate::codec::path_join;
use crate::deno_dir::entry_name;
use crate::text::{has_prefix, same_text, starts_with};

verus! {

/// What a read, write or download reported when it failed.
#[derive(Debug, PartialEq, Eq)]
pub enum IoFailure {
    /// The file does not exist.
    NotFound(String),
    /// Any other failure, with its message.
    Other(String),
}

/// Why fetching a module failed.
#[derive(Debug, PartialEq, Eq)]
pub enum FetchError {
    /// The specifier or the importer is not a usable URL.
    InvalidUrl,
    /// The module does not exist; the message names the specifier and the importer.
    NotFound(String),
    /// A read, write or download failed.
    Io(String),
    /// A module of the in-memory asset namespace reached the loader.
    AssetModule(String),
    /// A local module whose name is not its file name reached the loader.
    NameMismatch,
}

/// A module ready to compile, with its compiled output when that is cached.
#[derive(Debug)]
pub struct CodeFetchOutput {
    pub module_name: String,
    pub filename: String,
    pub source_code: String,
    pub maybe_output_code: Option<String>,
}

/// Where a module's source text comes from.
#[derive(Debug, Clone, Copy, PartialEq, Eq, Structural)]
pub enum SourcePlan {
    /// From the deps cache, downloaded first when needed.
    Remote,
    /// From the local file itself.
    Local,
}

/// The prefix of the in-memory asset namespace.
pub open spec fn asset_prefix() -> Seq<char> {
    seq!['/', '$', 'a', 's', 's', 'e', 't', '$', '/']
}

/// A remote module is downloaded when reloading is asked for or when it is not cached yet.
pub open spec fn fetches(reload: bool, cached: bool) -> bool {
    reload || !cached
}

/// A compiled-output entry is written only when none exists yet.
pub open spec fn store_writes(exists: bool) -> bool {
    !exists
}

/// The message for a module that cannot be found.
pub open spec fn not_found_message(specifier: Seq<char>, cont: Seq<char>) -> Seq<char> {
    seq!['C', 'a', 'n', 'n', 'o', 't', ' ', 'r', 'e', 's', 'o', 'l', 'v', 'e', ' ', 'm', 'o', 'd', 'u', 'l', 'e', ' ', '"']
        + specifier + seq!['"', ' ', 'f', 'r', 'o', 'm', ' ', '"'] + cont + seq!['"']
}

/// Whether the error `e` is the one for `specifier` imported from `cont`, given the
/// failure `f` of loading its source text.
pub open spec fn source_error_of(specifier: Seq<char>, cont: Seq<char>, f: IoFailure, e: FetchError) -> bool {
    match f {
        IoFailure::NotFound(_) => (e matches FetchError::NotFound(m) && m@ == not_found_message(specifier, cont)),
        IoFailure::Other(m) => (e matches FetchError::Io(n) && n@ == m@),
    }
}

/// Where the source text of `module_name`, kept in `filename`, comes from;
/// an asset module and a local module named otherwise than its file are errors.
pub fn source_plan(module_name: &str, filename: &str) -> (r: Result<SourcePlan, FetchError>)
    ensures
        is_remote_spec(module_name@) ==> r matches Ok(SourcePlan::Remote),
        !is_remote_spec(module_name@) && starts_with(module_name@, asset_prefix()) ==> (r matches Err(
            FetchError::AssetModule(m),
        ) && m@ == module_name@),
        !is_remote_spec(module_name@) && !starts_with(module_name@, asset_prefix())
            && module_name@ != filename@ ==> r matches Err(FetchError::NameMismatch),
        !is_remote_spec(module_name@) && !starts_with(module_name@, asset_prefix())
            && module_name@ == filename@ ==> r matches Ok(SourcePlan::Local),
{
    proof {
        reveal_strlit("/$asset$/");
    }
    assert("/$asset$/"@ =~= asset_prefix());
    if is_remote(module_name) {
        Ok(SourcePlan::Remote)
    } else if has_prefix(module_name, "/$asset$/") {
        Err(FetchError::AssetModule(String::from_str(module_name)))
    } else if !same_text(module_name, filename) {
        Err(FetchError::NameMismatch)
    } else {
        Ok(SourcePlan::Local)
    }
}

/// Whether a remote module is downloaded, given the reload policy and
/// whether its text is cached.
pub fn fetch_needed(reload: bool, cached: bool) -> (r: bool)
    ensures
        r == fetches(reload, cached),
{
    reload || !cached
}

/// Whether a compiled-output entry is written, given whether one exists.
pub fn store_needed(exists: bool) -> (r: bool)
    ensures
        r == store_writes(exists),
{
    !exists
}

/// The error for `specifier` imported from `cont` when loading its source text
/// failed with `failure`: a missing file becomes a message that names both.
pub fn source_failure(specifier: &str, cont: &str, failure: IoFailure) -> (r: FetchError)
    ensures
        source_error_of(specifier@, cont@, failure, r),
{
    match failure {
        IoFailure::NotFound(_) => {
            proof {
                reveal_strlit("Cannot resolve module \"");
                reveal_strlit("\" from \"");
                reveal_strlit("\"");
            }
            let mut m = String::from_str("Cannot resolve module \"");
            m.append(specifier);
            m.append("\" from \"");
            m.append(cont);
            m.append("\"");
            assert(m@ =~= not_found_message(specifier@, cont@));
            FetchError::NotFound(m)
        },
        IoFailure::Other(m) => FetchError::Io(m),
    }
}

/// What the compiled-cache lookup makes of a read: its text when it was
/// found, nothing when the entry does not exist, and the failure otherwise.
pub open spec fn cached_output(read: Result<Seq<char>, IoFailure>) -> Result<Option<Seq<char>>, Seq<char>> {
    match read {
        Ok(c) => Ok(Some(c)),
        Err(IoFailure::NotFound(_)) => Ok(None),
        Err(IoFailure::Other(m)) => Err(m@),
    }
}

/// The views of a read.
pub open spec fn read_view(read: Result<String, IoFailure>) -> Result<Seq<char>, IoFailure> {
    match read {
        Ok(c) => Ok(c@),
        Err(f) => Err(f),
    }
}

/// The module with its source text, completed by the read of its
/// compiled-output entry: a missing entry means no cached output.
pub fn with_cached_output(
    module_name: String,
    filename: String,
    source_code: String,
    read: Result<String, IoFailure>,
) -> (r: Result<CodeFetchOutput, FetchError>)
    ensures
        match (r, cached_output(read_view(read))) {
            (Ok(o), Ok(c)) => o.module_name == module_name && o.filename == filename
                && o.source_code == source_code && match (o.maybe_output_code, c) {
                (Some(x), Some(y)) => x@ == y,
                (None, None) => true,
                _ => false,
            },
            (Err(FetchError::Io(m)), Err(n)) => m@ == n,
            _ => false,
        },
{
    let maybe_output_code = match read {
        Ok(c) => Some(c),
        Err(IoFailure::NotFound(_)) => None,
        Err(IoFailure::Other(m)) => return Err(FetchError::Io(m)),
    };
    Ok(CodeFetchOutput { module_name, filename, source_code, maybe_output_code })
}

/// The compiled-output directory after storing `out` at `path`: written
/// only when no entry exists there yet.
pub open spec fn stored(dir: Map<Seq<char>, Seq<char>>, path: Seq<char>, out: Seq<char>) -> Map<
    Seq<char>,
    Seq<char>,
> {
    if store_writes(dir.contains_key(path)) {
        dir.insert(path, out)
    } else {
        dir
    }
}

/// Reading the entry at `path`: its text, or nothing when it does not exist.
pub open spec fn read_entry(dir: Map<Seq<char>, Seq<char>>, path: Seq<char>) -> Option<Seq<char>> {
    if dir.contains_key(path) {
        Some(dir[path])
    } else {
        None
    }
}

/// After storing `out` under the key of `filename` and `source_code`, loading
/// that key gives `out`, unless the key already held other text (which a
/// content-addressed key rules out); a key never stored is not found, and a
/// lookup that finds nothing yields no cached output rather than an error.
pub proof fn lemma_store_then_load(
    dir: Map<Seq<char>, Seq<char>>,
    gen: Seq<char>,
    filename: Seq<char>,
    source_code: Seq<char>,
    out: Seq<char>,
    other: Seq<char>,
    failure: IoFailure,
)
    requires
        !dir.contains_key(path_join(gen, entry_name(filename, source_code))) || dir[path_join(
            gen,
            entry_name(filename, source_code),
        )] == out,
    ensures
        read_entry(stored(dir, path_join(gen, entry_name(filename, source_code)), out), path_join(
            gen,
            entry_name(filename, source_code),
        )) == Some(out),
        !dir.contains_key(other) ==> read_entry(dir, other) is None,
        failure is NotFound ==> cached_output(Err(failure)) == Ok::<Option<Seq<char>>, Seq<char>>(
            None,
        ),
{
}

/// An entry is written once: storing again under a key that exists leaves
/// the directory as it was, so the first text stays.
pub proof fn lemma_write_once(
    dir: Map<Seq<char>, Seq<char>>,
    path: Seq<char>,
    first: Seq<char>,
    second: Seq<char>,
)
    requires
        !dir.contains_key(path),
    ensures
        stored(stored(dir, path, first), path, second) == stored(dir, path, first),
        read_entry(stored(stored(dir, path, first), path, second), path) == Some(first),
{
}

/// Without reloading, a cached remote module is never downloaded; with
/// reloading, it always is.
pub proof fn lemma_refetch_gating(cached: bool)
    ensures
        !fetches(false, true),
        fetches(true, cached),
{
}

} // verus!
