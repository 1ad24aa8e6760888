use deno_dir::codec::get_cache_filename;
use deno_dir::deno_dir::DenoDir;
use deno_dir::hash::source_code_hash;
use deno_dir::url_parts::UrlParts;
use tempfile::TempDir;

fn test_setup() -> (TempDir, DenoDir) {
    let temp_dir = TempDir::new().expect("tempdir fail");
    let root = temp_dir.path().to_str().unwrap().to_string();
    let deno_dir = DenoDir::new(false, Some(root.as_str()), "/home/nobody");
    (temp_dir, deno_dir)
}

#[test]
fn test_get_cache_filename() {
    let url = UrlParts::parse("http://example.com:1234/path/to/file.ts").unwrap();
    let basedir = "/cache/dir/";
    let cache_file = get_cache_filename(basedir, &url);
    assert_eq!(
        cache_file,
        Some("/cache/dir/example.com_PORT1234/path/to/file.ts".to_string())
    );
}

#[test]
fn test_cache_path() {
    let (temp_dir, deno_dir) = test_setup();
    assert_eq!(
        format!(
            "{}/gen/a3e29aece8d35a19bf9da2bb1c086af71fb36ed5.js",
            temp_dir.path().to_str().unwrap()
        ),
        deno_dir.cache_path("hello.ts", "1+2")
    );
}

#[test]
fn test_source_code_hash() {
    assert_eq!(
        "a3e29aece8d35a19bf9da2bb1c086af71fb36ed5",
        source_code_hash("hello.ts", "1+2")
    );
    // Different source_code should result in different hash.
    assert_eq!(
        "914352911fc9c85170908ede3df1128d690dda41",
        source_code_hash("hello.ts", "1")
    );
    // Different filename should result in different hash.
    assert_eq!(
        "2e396bc66101ecc642db27507048376d972b1b70",
        source_code_hash("hi.ts", "1+2")
    );
}

#[test]
fn test_src_file_to_url_1() {
    let (_temp_dir, deno_dir) = test_setup();
    assert_eq!("hello", deno_dir.src_file_to_url("hello"));
    assert_eq!("/hello", deno_dir.src_file_to_url("/hello"));
    let x = format!("{}/hello/world.txt", deno_dir.deps);
    assert_eq!("http://hello/world.txt", deno_dir.src_file_to_url(&x));
}

#[test]
fn test_src_file_to_url_2() {
    let (_temp_dir, deno_dir) = test_setup();
    let x = format!("{}/localhost_PORT4545/world.txt", deno_dir.deps);
    assert_eq!(
        "http://localhost:4545/world.txt",
        deno_dir.src_file_to_url(&x)
    );
}

#[test]
fn test_resolve_module_1() {
    let (_temp_dir, deno_dir) = test_setup();

    let test_cases = [
        (
            "./subdir/print_hello.ts",
            "/Users/rld/go/src/github.com/denoland/deno/testdata/006_url_imports.ts",
            "/Users/rld/go/src/github.com/denoland/deno/testdata/subdir/print_hello.ts",
            "/Users/rld/go/src/github.com/denoland/deno/testdata/subdir/print_hello.ts",
        ),
        (
            "testdata/001_hello.js",
            "/Users/rld/go/src/github.com/denoland/deno/",
            "/Users/rld/go/src/github.com/denoland/deno/testdata/001_hello.js",
            "/Users/rld/go/src/github.com/denoland/deno/testdata/001_hello.js",
        ),
        (
            "/Users/rld/src/deno/hello.js",
            ".",
            "/Users/rld/src/deno/hello.js",
            "/Users/rld/src/deno/hello.js",
        ),
        (
            "/this/module/got/imported.js",
            "/that/module/did/it.js",
            "/this/module/got/imported.js",
            "/this/module/got/imported.js",
        ),
    ];
    for &test in test_cases.iter() {
        let (module_name, filename) = deno_dir.resolve_module(test.0, test.1).unwrap();
        assert_eq!(module_name, test.2);
        assert_eq!(filename, test.3);
    }
}

#[test]
fn test_resolve_module_2() {
    let (_temp_dir, deno_dir) = test_setup();

    let module_specifier = "http://localhost:4545/testdata/subdir/print_hello.ts";
    let containing_file = "/deno/testdata/006_url_imports.ts";

    let expected_module_name = "http://localhost:4545/testdata/subdir/print_hello.ts";
    let expected_filename = format!(
        "{}/localhost_PORT4545/testdata/subdir/print_hello.ts",
        deno_dir.deps
    );

    let (module_name, filename) = deno_dir
        .resolve_module(module_specifier, containing_file)
        .unwrap();
    assert_eq!(module_name, expected_module_name);
    assert_eq!(filename, expected_filename);
}

#[test]
fn test_resolve_module_3() {
    let (_temp_dir, deno_dir) = test_setup();

    let module_specifier = format!("{}/unpkg.com/liltest@0.0.5/index.ts", deno_dir.deps);
    let containing_file = ".";

    let expected_module_name = "http://unpkg.com/liltest@0.0.5/index.ts";
    let expected_filename = format!("{}/unpkg.com/liltest@0.0.5/index.ts", deno_dir.deps);

    let (module_name, filename) = deno_dir
        .resolve_module(&module_specifier, containing_file)
        .unwrap();
    assert_eq!(module_name, expected_module_name);
    assert_eq!(filename, expected_filename);
}

#[test]
fn test_resolve_module_4() {
    let (_temp_dir, deno_dir) = test_setup();

    let module_specifier = "./util";
    let containing_file = format!("{}/unpkg.com/liltest@0.0.5/index.ts", deno_dir.deps);

    let expected_module_name = "http://unpkg.com/liltest@0.0.5/util";
    let expected_filename = format!("{}/unpkg.com/liltest@0.0.5/util", deno_dir.deps);

    let (module_name, filename) = deno_dir
        .resolve_module(module_specifier, &containing_file)
        .unwrap();
    assert_eq!(module_name, expected_module_name);
    assert_eq!(filename, expected_filename);
}

#[test]
fn test_resolve_module_5() {
    let (_temp_dir, deno_dir) = test_setup();

    let module_specifier = "http://localhost:4545/tests/subdir/mod2.ts";
    let containing_file = "/deno/tests/006_url_imports.ts";
    let expected_module_name = "http://localhost:4545/tests/subdir/mod2.ts";
    let expected_filename = format!("{}/localhost_PORT4545/tests/subdir/mod2.ts", deno_dir.deps);

    let (module_name, filename) = deno_dir
        .resolve_module(module_specifier, containing_file)
        .unwrap();
    assert_eq!(module_name, expected_module_name);
    assert_eq!(filename, expected_filename);
}
