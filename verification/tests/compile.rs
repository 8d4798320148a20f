//! Tests for compiler invocation: the search for the support libraries, the
//! compiler's arguments and the plan for a generated program.

use lob::cache::Cache;
use lob::compile::{
    artifacts_in, candidate_roots, resolve_artifacts, Artifacts, CachePlan, Candidate, Compiler,
    Probe, Surroundings,
};
use lob::error::LobError;

fn test_cache() -> Cache {
    Cache::with_dir("/tmp/lob_test_cache_compile/1".to_string())
}

fn strings(items: &[&str]) -> Vec<String> {
    items.iter().map(|s| s.to_string()).collect()
}

#[test]
fn find_target_dir_test() {
    let surroundings = Surroundings {
        manifest_ancestors: strings(&["/w/crates/cli", "/w/crates", "/w", "/"]),
        exe_dir: Some("/w/target/debug/deps".to_string()),
        exe_dir_parent: Some("/w/target/debug".to_string()),
        exe_in_deps: true,
        cwd_ancestors: strings(&["/w/crates", "/w", "/"]),
    };
    let roots = candidate_roots(&surroundings);
    assert_eq!(
        roots,
        strings(&[
            "/w/crates/cli/target/debug",
            "/w/crates/cli/target/release",
            "/w/crates/target/debug",
            "/w/crates/target/release",
            "/w/target/debug",
            "/w/target/release",
            "/target/debug",
            "/target/release",
            "/w/target/debug",
            "/w/target/debug/debug",
            "/w/target/debug/release",
            "/w/target/debug/deps",
            "/w/crates/target/debug",
            "/w/crates/target/release",
            "/w/crates/target/debug",
            "/w/crates/target/release",
            "/w/target/debug",
            "/w/target/release",
            "/target/debug",
            "/target/release",
        ])
    );

    let found_at = |root: &str| root == "/w/target/debug";
    let candidates: Vec<Candidate> = roots
        .into_iter()
        .map(|root| Candidate {
            has_prelude: found_at(&root),
            has_core: found_at(&root),
            deps: vec![],
            root,
        })
        .collect();
    let artifacts = resolve_artifacts(&candidates).unwrap();
    assert_eq!(artifacts.prelude, "/w/target/debug/liblob_prelude.rlib");
    assert_eq!(artifacts.core, "/w/target/debug/liblob_core.rlib");
    assert_eq!(artifacts.deps_dir, "/w/target/debug/deps");
}

#[test]
fn candidate_roots_of_an_ordinary_executable() {
    let surroundings = Surroundings {
        manifest_ancestors: vec![],
        exe_dir: Some("/opt/lob/bin".to_string()),
        exe_dir_parent: Some("/opt/lob".to_string()),
        exe_in_deps: false,
        cwd_ancestors: vec![],
    };
    assert_eq!(
        candidate_roots(&surroundings),
        strings(&["/opt/lob/debug", "/opt/lob/release", "/opt/lob/bin"])
    );
}

#[test]
fn candidate_roots_of_nothing_known() {
    let surroundings = Surroundings {
        manifest_ancestors: vec![],
        exe_dir: None,
        exe_dir_parent: None,
        exe_in_deps: false,
        cwd_ancestors: vec![],
    };
    assert!(candidate_roots(&surroundings).is_empty());
}

#[test]
fn candidate_roots_of_an_executable_at_the_root() {
    let surroundings = Surroundings {
        manifest_ancestors: vec![],
        exe_dir: Some("/".to_string()),
        exe_dir_parent: None,
        exe_in_deps: false,
        cwd_ancestors: strings(&["/w"]),
    };
    assert_eq!(
        candidate_roots(&surroundings),
        strings(&[
            "/",
            "/w/target/debug",
            "/w/target/release",
            "/w/target/debug",
            "/w/target/release",
        ])
    );
}

#[test]
fn artifacts_under_hashed_names() {
    let candidate = Candidate {
        root: "/w/target/debug".to_string(),
        has_prelude: false,
        has_core: false,
        deps: strings(&[
            "liblob_core-0a1b2c.rmeta",
            "liblob_prelude-.rlib",
            "libserde-77aa.rlib",
            "liblob_core-0a1b2c.rlib",
            "liblob_prelude-ffee01.rlib",
            "liblob_prelude-123456.rlib",
            "liblob_core-999999.rlib",
        ]),
    };
    let artifacts = artifacts_in(&candidate).unwrap();
    assert_eq!(artifacts.prelude, "/w/target/debug/deps/liblob_prelude-ffee01.rlib");
    assert_eq!(artifacts.core, "/w/target/debug/deps/liblob_core-0a1b2c.rlib");
    assert_eq!(artifacts.deps_dir, "/w/target/debug/deps");
}

#[test]
fn artifacts_plain_name_comes_before_hashed() {
    let candidate = Candidate {
        root: "/r".to_string(),
        has_prelude: true,
        has_core: false,
        deps: strings(&["liblob_prelude-ffee01.rlib", "liblob_core-0a1b2c.rlib"]),
    };
    let artifacts = artifacts_in(&candidate).unwrap();
    assert_eq!(artifacts.prelude, "/r/liblob_prelude.rlib");
    assert_eq!(artifacts.core, "/r/deps/liblob_core-0a1b2c.rlib");
}

#[test]
fn artifacts_need_both_libraries() {
    let only_prelude = Candidate {
        root: "/a".to_string(),
        has_prelude: true,
        has_core: false,
        deps: strings(&["liblob_prelude-ffee01.rlib"]),
    };
    let only_core = Candidate {
        root: "/b".to_string(),
        has_prelude: false,
        has_core: true,
        deps: vec![],
    };
    let both = Candidate {
        root: "/c".to_string(),
        has_prelude: true,
        has_core: true,
        deps: vec![],
    };
    let later = Candidate {
        root: "/d".to_string(),
        has_prelude: true,
        has_core: true,
        deps: vec![],
    };
    assert!(artifacts_in(&only_prelude).is_none());
    assert!(artifacts_in(&only_core).is_none());
    let artifacts = resolve_artifacts(&vec![only_prelude, only_core, both, later]).unwrap();
    assert_eq!(artifacts.prelude, "/c/liblob_prelude.rlib");
    assert_eq!(artifacts.core, "/c/liblob_core.rlib");
    assert_eq!(artifacts.deps_dir, "/c/deps");
}

#[test]
fn artifacts_of_no_candidate() {
    assert!(resolve_artifacts(&vec![]).is_none());
    let empty = Candidate {
        root: "/a".to_string(),
        has_prelude: false,
        has_core: false,
        deps: strings(&["liblob_prelude.rlib", "liblob_core-.rlib", "lob_core-1.rlib"]),
    };
    assert!(resolve_artifacts(&vec![empty]).is_none());
}

#[test]
fn system_compiler_available() {
    match Compiler::system(Probe::Works) {
        Ok(compiler) => {
            assert_eq!(compiler.rustc_path(), "rustc");
            assert_eq!(*compiler.sysroot(), None);
        }
        Err(e) => panic!("System compiler not available: {}", e.message()),
    }
}

#[test]
fn system_compiler_missing() {
    let error = Compiler::system(Probe::NotFound).unwrap_err();
    assert_eq!(
        error.message(),
        "Toolchain error: rustc not found. Please install Rust from https://rustup.rs/"
    );
    let error = Compiler::system(Probe::Failed).unwrap_err();
    assert_eq!(error.message(), "Toolchain error: rustc not working properly");
}

#[test]
fn custom_compiler_creation() {
    let rustc_path = "/custom/rustc".to_string();
    let sysroot = Some("/custom/sysroot".to_string());

    let compiler = Compiler::custom(rustc_path.clone(), sysroot.clone());

    assert_eq!(*compiler.rustc_path(), rustc_path);
    assert_eq!(*compiler.sysroot(), sysroot);
}

#[test]
fn custom_compiler_no_sysroot() {
    let rustc_path = "/custom/rustc".to_string();
    let compiler = Compiler::custom(rustc_path.clone(), None);

    assert_eq!(*compiler.rustc_path(), rustc_path);
    assert_eq!(*compiler.sysroot(), None);
}

#[test]
fn compile_with_custom_sysroot() {
    let temp_dir = "/tmp/test_sysroot".to_string();

    let compiler = Compiler::custom("rustc".to_string(), Some(temp_dir.clone()));

    assert_eq!(*compiler.sysroot(), Some(temp_dir));
}

#[test]
fn compile_with_invalid_source() {
    let stderr = "error: expected one of `!`, `.`, `::`, `;`, `?`, `{`, `}`, or an operator, found `is`\n --> /c/sources/k.rs:1:18\n  |\n1 | fn main() { this is not valid rust }\n  |                  ^^ expected one of 8 possible tokens\n\nerror: aborting due to 1 previous error\n";
    let result = Compiler::compile(false, stderr, Some("test_expr"));
    assert!(result.is_err());

    if let Err(LobError::Compilation(msg)) = result {
        assert!(!msg.is_empty());
        assert!(msg.contains("test_expr"));
        assert!(msg.contains("k.rs:1:18"));
        assert!(!msg.contains("/c/sources/"));
    } else {
        panic!("Expected compilation error");
    }
}

#[test]
fn compile_with_user_expr_in_error() {
    let stderr = "error[E0308]: mismatched types\n --> s.rs:1:26\n  |\n1 | fn main() { let x: i32 = \"string\"; }\n  |                    ---   ^^^^^^^^ expected `i32`, found `&str`\n";
    let user_expr = "_.map(|x| x + \"oops\")";

    let result = Compiler::compile(false, stderr, Some(user_expr));
    assert!(result.is_err());

    if let Err(LobError::Compilation(msg)) = result {
        assert!(!msg.is_empty());
        assert!(msg.contains("Your expression:"));
        assert!(msg.contains(user_expr));
    } else {
        panic!("Expected compilation error");
    }
}

#[test]
fn compile_with_invalid_path() {
    // What the compiler says of a source file that is not there.
    let stderr = "error: couldn't read `/nonexistent/file.rs`: No such file or directory (os error 2)\n\nerror: aborting due to 1 previous error\n";

    let result = Compiler::compile(false, stderr, None);
    assert!(result.is_err());
    match result {
        Err(LobError::Compilation(msg)) => {
            assert!(msg.contains("couldn't read `/nonexistent/file.rs`"));
            assert!(!msg.contains("Your expression:"));
        }
        _ => panic!("Expected compilation error"),
    }
}

#[test]
fn compile_success_is_success() {
    assert!(Compiler::compile(true, "warning: unused variable", None).is_ok());
    assert!(Compiler::compile(true, "", Some("_.count()")).is_ok());
}

#[test]
fn compile_and_cache_with_cache_hit() {
    let compiler = Compiler::system(Probe::Works).unwrap();
    let cache = test_cache();

    let source = "fn main() { println!(\"test\"); }";

    // First compilation
    let path1 = match compiler.compile_and_cache(source, &cache, false) {
        CachePlan::Miss(build) => {
            assert_eq!(build.key, cache.hash_source(source));
            assert_eq!(build.source_path, cache.source_path(&build.key));
            let result = Compiler::finish(build, Ok(())).unwrap();
            assert!(!result.cache_hit);
            result.binary_path
        }
        CachePlan::Hit(_) => panic!("Expected a cache miss"),
    };

    // Second compilation should hit cache
    let path2 = match compiler.compile_and_cache(source, &cache, true) {
        CachePlan::Hit(result) => {
            assert!(result.cache_hit);
            result.binary_path
        }
        CachePlan::Miss(_) => panic!("Expected a cache hit"),
    };

    assert_eq!(path1, path2);
}

#[test]
fn compile_and_cache_different_sources() {
    let compiler = Compiler::system(Probe::Works).unwrap();
    let cache = test_cache();

    let source1 = "fn main() { println!(\"test1\"); }";
    let source2 = "fn main() { println!(\"test2\"); }";

    let path_of = |plan: CachePlan| match plan {
        CachePlan::Hit(result) => result.binary_path,
        CachePlan::Miss(build) => build.binary_path,
    };
    let path1 = path_of(compiler.compile_and_cache(source1, &cache, false));
    let path2 = path_of(compiler.compile_and_cache(source2, &cache, false));

    // Different sources should produce different binaries
    assert_ne!(path1, path2);
    assert_eq!(path1, path_of(compiler.compile_and_cache(source1, &cache, true)));
    assert_eq!(path2, path_of(compiler.compile_and_cache(source2, &cache, true)));
}

#[test]
fn finish_passes_the_error_on() {
    let compiler = Compiler::system(Probe::Works).unwrap();
    let cache = test_cache();
    let build = match compiler.compile_and_cache("fn main() { oops }", &cache, false) {
        CachePlan::Miss(build) => build,
        CachePlan::Hit(_) => panic!("Expected a cache miss"),
    };
    let compiled = Compiler::compile(false, "error: cannot find value `oops`", None);
    match Compiler::finish(build, compiled) {
        Err(LobError::Compilation(msg)) => assert!(msg.contains("cannot find value")),
        _ => panic!("Expected compilation error"),
    }
}

#[test]
fn arguments_without_libraries() {
    let compiler = Compiler::system(Probe::Works).unwrap();
    let args = compiler.arguments("/c/sources/k.rs", "/c/binaries/k", &None);
    assert_eq!(
        args,
        strings(&[
            "--edition=2021",
            "-C",
            "opt-level=3",
            "--crate-type",
            "bin",
            "-o",
            "/c/binaries/k",
            "/c/sources/k.rs",
        ])
    );
}

#[test]
fn arguments_with_libraries_and_sysroot() {
    let compiler = Compiler::custom("/t/bin/rustc".to_string(), Some("/t".to_string()));
    let artifacts = Artifacts {
        prelude: "/w/liblob_prelude.rlib".to_string(),
        core: "/w/deps/liblob_core-1.rlib".to_string(),
        deps_dir: "/w/deps".to_string(),
    };
    let args = compiler.arguments("s.rs", "out", &Some(artifacts));
    assert_eq!(
        args,
        strings(&[
            "--edition=2021",
            "-C",
            "opt-level=3",
            "--crate-type",
            "bin",
            "-o",
            "out",
            "s.rs",
            "--extern",
            "lob_prelude=/w/liblob_prelude.rlib",
            "--extern",
            "lob_core=/w/deps/liblob_core-1.rlib",
            "-L",
            "dependency=/w/deps",
            "--sysroot",
            "/t",
        ])
    );
}
