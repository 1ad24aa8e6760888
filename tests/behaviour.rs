use deno_dir::codec::{decode_file_url, get_cache_filename, is_remote, join_path};
use deno_dir::deno_dir::DenoDir;
use deno_dir::fetch::{
    fetch_needed, source_failure, source_plan, store_needed, with_cached_output, FetchError,
    IoFailure, SourcePlan,
};
use deno_dir::hash::{source_code_hash, to_hex};
use deno_dir::resolve::{locate, resolve, resolve_mode, ResolveMode, UrlParseError};
use deno_dir::text::replace_first_occurrence;
use deno_dir::url_parts::UrlParts;

#[test]
fn digest_is_stable_and_input_sensitive() {
    let a = source_code_hash("hello.ts", "1+2");
    let b = source_code_hash("hello.ts", "1+2");
    assert_eq!(a, b);
    assert_eq!(a, "a3e29aece8d35a19bf9da2bb1c086af71fb36ed5");
    assert_ne!(a, source_code_hash("hello.ts", "1+3"));
    assert_ne!(a, source_code_hash("hello.js", "1+2"));
    assert_eq!(
        source_code_hash("hello.js", "1+2"),
        "e8e3ee6bee4aef2ec63f6ec3db7fc5fdfae910ae"
    );
}

#[test]
fn hex_of_bytes() {
    assert_eq!(to_hex(&vec![0u8, 15, 16, 171, 255]), "000f10abff");
    assert_eq!(to_hex(&vec![]), "");
}

#[test]
fn new_lays_out_directories() {
    let d = DenoDir::new(true, None, "/home/me");
    assert_eq!(d.root, "/home/me/.deno");
    assert_eq!(d.gen, "/home/me/.deno/gen");
    assert_eq!(d.deps, "/home/me/.deno/deps");
    assert!(d.reload);
    let e = DenoDir::new(false, Some("/cache/"), "/home/me");
    assert_eq!(e.root, "/cache/");
    assert_eq!(e.gen, "/cache/gen");
    assert!(!e.reload);
}

#[test]
fn encode_then_decode_round_trips() {
    let deps = "/r/deps";
    let url = UrlParts::parse("https://example.com:8080/a/b.ts").unwrap();
    let path = get_cache_filename(deps, &url).unwrap();
    assert_eq!(path, "/r/deps/example.com_PORT8080/a/b.ts");
    assert_eq!(decode_file_url(deps, &path), "http://example.com:8080/a/b.ts");
    let plain = UrlParts::parse("http://example.com/x.ts").unwrap();
    let p2 = get_cache_filename(deps, &plain).unwrap();
    assert_eq!(p2, "/r/deps/example.com/x.ts");
    assert_eq!(decode_file_url(deps, &p2), "http://example.com/x.ts");
}

#[test]
fn decode_replaces_first_marker_only() {
    assert_eq!(
        decode_file_url("/d", "/d/h_PORT1/x_PORT2"),
        "http://h:1/x_PORT2"
    );
    assert_eq!(decode_file_url("/d", "/d"), "http://");
    assert_eq!(decode_file_url("/d", "/dx/h"), "/dx/h");
    assert_eq!(replace_first_occurrence("aXbXc", "X", "--"), "a--bXc");
    assert_eq!(replace_first_occurrence("abc", "X", "--"), "abc");
}

#[test]
fn url_without_host_has_no_cache_file() {
    let url = UrlParts::parse("mailto:someone@example.com").unwrap();
    assert_eq!(get_cache_filename("/d", &url), None);
    assert!(UrlParts::parse("not a url").is_none());
}

#[test]
fn path_joining() {
    assert_eq!(join_path("/a", "b"), "/a/b");
    assert_eq!(join_path("/a/", "b"), "/a/b");
    assert_eq!(join_path("/a", "/b"), "/b");
    assert_eq!(join_path("", "b"), "b");
}

#[test]
fn remote_detection() {
    assert!(is_remote("http://x/y"));
    assert!(is_remote("https://x/y"));
    assert!(!is_remote("/http/y"));
}

#[test]
fn modes_of_resolution() {
    assert_eq!(resolve_mode("./a.ts", "."), ResolveMode::Direct);
    assert_eq!(resolve_mode("http://h/a.ts", "/x/y.ts"), ResolveMode::Direct);
    assert_eq!(resolve_mode("/abs.ts", "/x/y.ts"), ResolveMode::Direct);
    assert_eq!(resolve_mode("a.ts", "/x/"), ResolveMode::Directory);
    assert_eq!(resolve_mode("a.ts", "/x/y.ts"), ResolveMode::File);
}

#[test]
fn resolution_is_pure() {
    let first = resolve("/r/deps", "./print_hello.ts", "/a/b/testdata/006_url_imports.ts");
    let second = resolve("/r/deps", "./print_hello.ts", "/a/b/testdata/006_url_imports.ts");
    assert_eq!(first, second);
}

#[test]
fn relative_import_of_local_file() {
    let (name, file) = resolve(
        "/r/deps",
        "./subdir/print_hello.ts",
        "/a/b/testdata/006_url_imports.ts",
    )
    .unwrap();
    assert_eq!(name, "/a/b/testdata/subdir/print_hello.ts");
    assert_eq!(file, "/a/b/testdata/subdir/print_hello.ts");
}

#[test]
fn absolute_local_path_is_its_own_identity() {
    let (name, file) = resolve("/r/deps", "/x/y/../z.ts", ".").unwrap();
    assert_eq!(name, file);
    assert_eq!(name, "/x/z.ts");
}

#[test]
fn remote_import_from_any_file() {
    for cont in [".", "/deno/tests/006_url_imports.ts", "/some/dir/"] {
        let (name, file) =
            resolve("/r/deps", "http://localhost:4545/tests/subdir/mod2.ts", cont).unwrap();
        assert_eq!(name, "http://localhost:4545/tests/subdir/mod2.ts");
        assert_eq!(file, "/r/deps/localhost_PORT4545/tests/subdir/mod2.ts");
    }
}

#[test]
fn relative_import_inside_remote_module() {
    let (name, file) = resolve("/r/deps", "../lib/m.ts", "/r/deps/h_PORT81/a/b/c.ts").unwrap();
    assert_eq!(name, "http://h:81/a/lib/m.ts");
    assert_eq!(file, "/r/deps/h_PORT81/a/lib/m.ts");
}

#[test]
fn unusable_base_is_a_parse_error() {
    assert_eq!(resolve("/r/deps", "a.ts", "relative/base.ts"), Err(UrlParseError));
    assert_eq!(resolve("/r/deps", "http://[::1", "."), Err(UrlParseError));
}

#[test]
fn locate_from_parts() {
    let url = UrlParts::parse("file:///a/b.ts").unwrap();
    assert_eq!(
        locate("/d", &url),
        Some(("/a/b.ts".to_string(), "/a/b.ts".to_string()))
    );
    let remote = UrlParts::parse("http://h/a.ts").unwrap();
    assert_eq!(
        locate("/d", &remote),
        Some(("http://h/a.ts".to_string(), "/d/h/a.ts".to_string()))
    );
}

#[test]
fn source_plans() {
    assert_eq!(source_plan("http://h/a.ts", "/d/h/a.ts"), Ok(SourcePlan::Remote));
    assert_eq!(source_plan("/a.ts", "/a.ts"), Ok(SourcePlan::Local));
    assert_eq!(
        source_plan("/$asset$/lib.d.ts", "/$asset$/lib.d.ts"),
        Err(FetchError::AssetModule("/$asset$/lib.d.ts".to_string()))
    );
    assert_eq!(source_plan("/a.ts", "/b.ts"), Err(FetchError::NameMismatch));
}

#[test]
fn refetch_gating() {
    assert!(!fetch_needed(false, true));
    assert!(fetch_needed(false, false));
    assert!(fetch_needed(true, true));
    assert!(fetch_needed(true, false));
}

#[test]
fn store_is_write_once() {
    assert!(store_needed(false));
    assert!(!store_needed(true));
}

#[test]
fn missing_module_message_names_both() {
    let e = source_failure(
        "hello.ts",
        "/baddir/badfile.ts",
        IoFailure::NotFound("No such file or directory".to_string()),
    );
    assert_eq!(
        e,
        FetchError::NotFound(
            "Cannot resolve module \"hello.ts\" from \"/baddir/badfile.ts\"".to_string()
        )
    );
    let o = source_failure("a", "b", IoFailure::Other("denied".to_string()));
    assert_eq!(o, FetchError::Io("denied".to_string()));
}

#[test]
fn cached_output_before_and_after_store() {
    let first = with_cached_output(
        "/a.ts".to_string(),
        "/a.ts".to_string(),
        "1+2".to_string(),
        Err(IoFailure::NotFound("gone".to_string())),
    )
    .unwrap();
    assert_eq!(first.maybe_output_code, None);
    assert_eq!(first.source_code, "1+2");
    let second = with_cached_output(
        "/a.ts".to_string(),
        "/a.ts".to_string(),
        "1+2".to_string(),
        Ok("1+2 // output code".to_string()),
    )
    .unwrap();
    assert_eq!(second.maybe_output_code, Some("1+2 // output code".to_string()));
    let failed = with_cached_output(
        "/a.ts".to_string(),
        "/a.ts".to_string(),
        "1+2".to_string(),
        Err(IoFailure::Other("denied".to_string())),
    );
    assert!(matches!(failed, Err(FetchError::Io(m)) if m == "denied"));
}
