//! The cache directories and the resolver bound to them.
use vstd::prelude::*;
use crate::codec::{decode_file_url, decode_path, join_path, path_join};
use crate::hash::{digest_of, source_code_hash};
use crate::resolve::{is_absolute_spec, resolve, resolved, result_view, UrlParseError};

verus! {

/// The cache directories: compiled output under `gen`, the text of remote
/// modules under `deps`, both under `root`.
pub struct DenoDir {
    pub root: String,
    pub gen: String,
    pub deps: String,
    /// Whether remote modules are fetched again even when they are cached.
    pub reload: bool,
}

/// The file name of a compiled-output entry.
pub open spec fn entry_name(filename: Seq<char>, source_code: Seq<char>) -> Seq<char> {
    digest_of(filename, source_code) + seq!['.', 'j', 's']
}

impl DenoDir {
    /// The directories under `custom_root`, or else under `.deno` in `home`.
    /// Making them on disk is left to the caller.
    pub fn new(reload: bool, custom_root: Option<&str>, home: &str) -> (r: DenoDir)
        ensures
            r.root@ == match custom_root {
                Some(p) => p@,
                None => path_join(home@, seq!['.', 'd', 'e', 'n', 'o']),
            },
            r.gen@ == path_join(r.root@, seq!['g', 'e', 'n']),
            r.deps@ == path_join(r.root@, seq!['d', 'e', 'p', 's']),
            r.reload == reload,
    {
        proof {
            reveal_strlit(".deno");
            reveal_strlit("gen");
            reveal_strlit("deps");
        }
        assert(".deno"@ =~= seq!['.', 'd', 'e', 'n', 'o']);
        assert("gen"@ =~= seq!['g', 'e', 'n']);
        assert("deps"@ =~= seq!['d', 'e', 'p', 's']);
        let root = match custom_root {
            Some(p) => String::from_str(p),
            None => join_path(home, ".deno"),
        };
        let gen = join_path(root.as_str(), "gen");
        let deps = join_path(root.as_str(), "deps");
        DenoDir { root, gen, deps, reload }
    }

    /// Where the compiled output of `source_code`, read from `filename`, is kept.
    pub fn cache_path(&self, filename: &str, source_code: &str) -> (r: String)
        ensures
            r@ == path_join(self.gen@, entry_name(filename@, source_code@)),
    {
        let mut key = source_code_hash(filename, source_code);
        proof {
            reveal_strlit(".js");
        }
        assert(".js"@ =~= seq!['.', 'j', 's']);
        key.append(".js");
        join_path(self.gen.as_str(), key.as_str())
    }

    /// The URL that `filename` stands for when it lies under the deps
    /// directory; any other path is returned as it is.
    pub fn src_file_to_url(&self, filename: &str) -> (r: String)
        ensures
            r@ == decode_path(self.deps@, filename@),
    {
        decode_file_url(self.deps.as_str(), filename)
    }

    /// Resolves `module_specifier` imported from `containing_file` to the
    /// module's name and the local file that holds its text.
    pub fn resolve_module(&self, module_specifier: &str, containing_file: &str) -> (r: Result<
        (String, String),
        UrlParseError,
    >)
        ensures
            result_view(r) == resolved(self.deps@, module_specifier@, containing_file@),
            is_absolute_spec(decode_path(self.deps@, module_specifier@)) ==> (r matches Ok(
                (name, file),
            ) ==> name@ == file@),
    {
        resolve(self.deps.as_str(), module_specifier, containing_file)
    }
}

} // verus!
