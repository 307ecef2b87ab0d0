//! End-to-end tests driving the analysis engine over an in-memory picture
//! of a package: each query the engine asks is answered by hand.

use analyzer::data::AnalysisResult;
use analyzer::engine::{AnalysisError, Analyzer, PackageMeta, Phase, Query, TargetInfo};

fn target(name: &str, kind: &str, src_path: &str) -> TargetInfo {
    TargetInfo {
        name: name.to_string(),
        kinds: vec![kind.to_string()],
        src_path: src_path.to_string(),
    }
}

fn answer_canonicalize(a: &mut Analyzer, expect: &str, reply: Option<&str>) {
    match a.next_query() {
        Query::Canonicalize { path } => {
            assert_eq!(path.as_str(), expect);
            a.answer_path(reply.map(|s| s.to_string()));
        }
        q => panic!("unexpected query: {:?}", q),
    }
}

fn answer_is_dir(a: &mut Analyzer, expect: &str, reply: bool) {
    match a.next_query() {
        Query::IsDir { path } => {
            assert_eq!(path.as_str(), expect);
            a.answer_flag(reply);
        }
        q => panic!("unexpected query: {:?}", q),
    }
}

fn answer_file_exists(a: &mut Analyzer, expect: &str, reply: bool) {
    match a.next_query() {
        Query::FileExists { path } => {
            assert_eq!(path.as_str(), expect);
            a.answer_flag(reply);
        }
        q => panic!("unexpected query: {:?}", q),
    }
}

fn answer_metadata(a: &mut Analyzer, expect: &str, reply: Result<PackageMeta, String>) {
    match a.next_query() {
        Query::Metadata { manifest } => {
            assert_eq!(manifest.as_str(), expect);
            a.answer_metadata(reply);
        }
        q => panic!("unexpected query: {:?}", q),
    }
}

fn answer_read(a: &mut Analyzer, expect: &str, reply: Option<&str>) {
    match a.next_query() {
        Query::ReadFile { path } => {
            assert_eq!(path.as_str(), expect);
            a.answer_text(reply.map(|s| s.to_string()));
        }
        q => panic!("unexpected query: {:?}", q),
    }
}

fn finish_ok(a: Analyzer) -> AnalysisResult {
    assert_eq!(a.phase, Phase::Finished);
    match a.finish() {
        Ok(r) => r,
        Err(e) => panic!("analysis failed: {:?}", e),
    }
}

fn finish_err(a: Analyzer) -> AnalysisError {
    assert_eq!(a.phase, Phase::Finished);
    match a.finish() {
        Ok(r) => panic!("analysis unexpectedly succeeded: {:?}", r),
        Err(e) => e,
    }
}

fn simple_meta() -> PackageMeta {
    PackageMeta {
        version: "0.1.0".to_string(),
        targets: vec![target("my_crate", "lib", "/pkg/src/lib.rs")],
    }
}

/// Runs the engine through the common opening: canonicalize, directory
/// check, manifest check, metadata.
fn open_package(a: &mut Analyzer, meta: PackageMeta) {
    answer_canonicalize(a, "/pkg", Some("/pkg"));
    answer_is_dir(a, "/pkg", true);
    answer_file_exists(a, "/pkg/Cargo.toml", true);
    answer_metadata(a, "/pkg/Cargo.toml", Ok(meta));
}

fn paths_of(path: &[String]) -> Vec<&str> {
    path.iter().map(|s| s.as_str()).collect()
}

#[test]
fn test_analyze_crate() {
    let mut a = Analyzer::new("/pkg".to_string());
    open_package(&mut a, simple_meta());
    answer_file_exists(&mut a, "/pkg/src/lib.rs", true);
    answer_read(
        &mut a,
        "/pkg/src/lib.rs",
        Some(
            r#"
            //! The crate docstring
            pub mod my_module;
        "#,
        ),
    );
    answer_file_exists(&mut a, "/pkg/src/my_module.rs", true);
    answer_read(
        &mut a,
        "/pkg/src/my_module.rs",
        Some(
            r#"
            //! The module docstring
            pub mod my_submodule;
            /// The struct1 docstring
            pub struct DummyStruct1;
            /// The enum1 docstring
            pub enum DummyEnum1 {}
        "#,
        ),
    );
    answer_file_exists(&mut a, "/pkg/src/my_module/my_submodule.rs", true);
    answer_read(
        &mut a,
        "/pkg/src/my_module/my_submodule.rs",
        Some(
            r#"
            //! The sub-module docstring
            /// The struct2 docstring
            pub struct DummyStruct2;
            /// The enum2 docstring
            pub enum DummyEnum2 {}
        "#,
        ),
    );
    let r = finish_ok(a);

    assert_eq!(r.crate_.name.as_str(), "my_crate");
    assert_eq!(r.crate_.version.as_str(), "0.1.0");

    assert_eq!(r.modules.len(), 3);
    assert_eq!(paths_of(&r.modules[0].path), vec!["my_crate"]);
    assert_eq!(r.modules[0].docstring.as_deref(), Some("The crate docstring"));
    assert_eq!(r.modules[0].declarations, vec!["my_module".to_string()]);
    assert_eq!(r.modules[0].file.as_deref(), Some("/pkg/src/lib.rs"));
    assert_eq!(paths_of(&r.modules[1].path), vec!["my_crate", "my_module"]);
    assert_eq!(r.modules[1].docstring.as_deref(), Some("The module docstring"));
    assert_eq!(r.modules[1].declarations, vec!["my_submodule".to_string()]);
    assert_eq!(
        paths_of(&r.modules[2].path),
        vec!["my_crate", "my_module", "my_submodule"]
    );
    assert_eq!(
        r.modules[2].docstring.as_deref(),
        Some("The sub-module docstring")
    );
    assert_eq!(r.modules[2].declarations, Vec::<String>::new());

    assert_eq!(r.structs.len(), 2);
    assert_eq!(
        paths_of(&r.structs[0].path),
        vec!["my_crate", "my_module", "DummyStruct1"]
    );
    assert_eq!(r.structs[0].docstring.as_deref(), Some("The struct1 docstring"));
    assert!(r.structs[0].fields.is_empty());
    assert_eq!(
        paths_of(&r.structs[1].path),
        vec!["my_crate", "my_module", "my_submodule", "DummyStruct2"]
    );
    assert_eq!(r.structs[1].docstring.as_deref(), Some("The struct2 docstring"));

    assert_eq!(r.enums.len(), 2);
    assert_eq!(
        paths_of(&r.enums[0].path),
        vec!["my_crate", "my_module", "DummyEnum1"]
    );
    assert_eq!(r.enums[0].docstring.as_deref(), Some("The enum1 docstring"));
    assert_eq!(
        paths_of(&r.enums[1].path),
        vec!["my_crate", "my_module", "my_submodule", "DummyEnum2"]
    );
    assert_eq!(r.enums[1].docstring.as_deref(), Some("The enum2 docstring"));

    assert!(r.functions.is_empty());
}

#[test]
fn tree_and_ownership_hold_of_result() {
    let mut a = Analyzer::new("/pkg".to_string());
    open_package(&mut a, simple_meta());
    answer_file_exists(&mut a, "/pkg/src/lib.rs", true);
    answer_read(&mut a, "/pkg/src/lib.rs", Some("pub mod x;\npub mod y;\n"));
    // the worklist is a stack: y is processed before x
    answer_file_exists(&mut a, "/pkg/src/y.rs", true);
    answer_read(&mut a, "/pkg/src/y.rs", Some("pub struct S;\n"));
    answer_file_exists(&mut a, "/pkg/src/x.rs", true);
    answer_read(&mut a, "/pkg/src/x.rs", Some("pub fn f() {}\n"));
    let r = finish_ok(a);
    assert_eq!(r.modules.len(), 3);
    // every non-root module's path is some earlier module's path plus one name
    for i in 1..r.modules.len() {
        let child = &r.modules[i].path;
        let parent = &child[..child.len() - 1];
        assert!(
            (0..i).any(|j| r.modules[j].path.as_slice() == parent),
            "module {:?} has no parent",
            child
        );
    }
    // every item's path prefix is a present module's path
    for s in r.structs.iter().map(|s| &s.path).chain(r.functions.iter().map(|f| &f.path)) {
        let prefix = &s[..s.len() - 1];
        assert!(r.modules.iter().any(|m| m.path.as_slice() == prefix));
    }
    // one module per distinct file
    for i in 0..r.modules.len() {
        assert!(r.modules[i].file.is_some());
        for j in 0..i {
            assert_ne!(r.modules[i].file, r.modules[j].file);
        }
    }
}

#[test]
fn duplicate_declarations_are_parsed_once() {
    let mut a = Analyzer::new("/pkg".to_string());
    open_package(&mut a, simple_meta());
    answer_file_exists(&mut a, "/pkg/src/lib.rs", true);
    answer_read(&mut a, "/pkg/src/lib.rs", Some("pub mod m;\npub mod m;\n"));
    answer_file_exists(&mut a, "/pkg/src/m.rs", true);
    answer_read(&mut a, "/pkg/src/m.rs", Some("//! m\n"));
    // the second declaration resolves to the already-visited file: skipped
    answer_file_exists(&mut a, "/pkg/src/m.rs", true);
    let r = finish_ok(a);
    assert_eq!(r.modules.len(), 2);
}

#[test]
fn mod_file_layout_is_second_choice() {
    let mut a = Analyzer::new("/pkg".to_string());
    open_package(&mut a, simple_meta());
    answer_file_exists(&mut a, "/pkg/src/lib.rs", true);
    answer_read(&mut a, "/pkg/src/lib.rs", Some("pub mod sub;\n"));
    answer_file_exists(&mut a, "/pkg/src/sub.rs", false);
    answer_file_exists(&mut a, "/pkg/src/sub/mod.rs", true);
    answer_read(&mut a, "/pkg/src/sub/mod.rs", Some("pub mod inner;\n"));
    // submodules of sub resolve inside /pkg/src/sub
    answer_file_exists(&mut a, "/pkg/src/sub/inner.rs", false);
    answer_file_exists(&mut a, "/pkg/src/sub/inner/mod.rs", false);
    let r = finish_ok(a);
    assert_eq!(r.modules.len(), 2);
    assert_eq!(paths_of(&r.modules[1].path), vec!["my_crate", "sub"]);
}

#[test]
fn unresolved_submodule_is_skipped_silently() {
    let mut a = Analyzer::new("/pkg".to_string());
    open_package(&mut a, simple_meta());
    answer_file_exists(&mut a, "/pkg/src/lib.rs", true);
    answer_read(&mut a, "/pkg/src/lib.rs", Some("pub mod ghostly;\n"));
    answer_file_exists(&mut a, "/pkg/src/ghostly.rs", false);
    answer_file_exists(&mut a, "/pkg/src/ghostly/mod.rs", false);
    let r = finish_ok(a);
    assert_eq!(r.modules.len(), 1);
    assert_eq!(r.modules[0].declarations, vec!["ghostly".to_string()]);
}

#[test]
fn missing_entry_file_yields_identity_only() {
    let mut a = Analyzer::new("/pkg".to_string());
    open_package(&mut a, simple_meta());
    answer_file_exists(&mut a, "/pkg/src/lib.rs", false);
    let r = finish_ok(a);
    assert_eq!(r.crate_.name.as_str(), "my_crate");
    assert_eq!(r.crate_.version.as_str(), "0.1.0");
    assert!(r.modules.is_empty());
    assert!(r.structs.is_empty());
    assert!(r.enums.is_empty());
    assert!(r.functions.is_empty());
}

#[test]
fn missing_manifest_is_fatal() {
    let mut a = Analyzer::new("/pkg".to_string());
    answer_canonicalize(&mut a, "/pkg", Some("/pkg"));
    answer_is_dir(&mut a, "/pkg", true);
    answer_file_exists(&mut a, "/pkg/Cargo.toml", false);
    match finish_err(a) {
        AnalysisError::ManifestMissing { path } => assert_eq!(path.as_str(), "/pkg"),
        e => panic!("wrong error: {:?}", e),
    }
}

#[test]
fn unresolvable_path_is_fatal() {
    let mut a = Analyzer::new("/nowhere".to_string());
    answer_canonicalize(&mut a, "/nowhere", None);
    match finish_err(a) {
        AnalysisError::PathResolution { path } => assert_eq!(path.as_str(), "/nowhere"),
        e => panic!("wrong error: {:?}", e),
    }
}

#[test]
fn non_directory_is_fatal() {
    let mut a = Analyzer::new("/pkg".to_string());
    answer_canonicalize(&mut a, "/pkg", Some("/pkg"));
    answer_is_dir(&mut a, "/pkg", false);
    match finish_err(a) {
        AnalysisError::NotADirectory { path } => assert_eq!(path.as_str(), "/pkg"),
        e => panic!("wrong error: {:?}", e),
    }
}

#[test]
fn metadata_failure_is_fatal() {
    let mut a = Analyzer::new("/pkg".to_string());
    answer_canonicalize(&mut a, "/pkg", Some("/pkg"));
    answer_is_dir(&mut a, "/pkg", true);
    answer_file_exists(&mut a, "/pkg/Cargo.toml", true);
    answer_metadata(&mut a, "/pkg/Cargo.toml", Err("provider broke".to_string()));
    match finish_err(a) {
        AnalysisError::Metadata { detail } => assert_eq!(detail.as_str(), "provider broke"),
        e => panic!("wrong error: {:?}", e),
    }
}

#[test]
fn no_lib_or_bin_target_is_fatal() {
    let mut a = Analyzer::new("/pkg".to_string());
    let meta = PackageMeta {
        version: "0.1.0".to_string(),
        targets: vec![target("my_crate", "example", "/pkg/examples/e.rs")],
    };
    open_package(&mut a, meta);
    match finish_err(a) {
        AnalysisError::NoEntryTarget => {}
        e => panic!("wrong error: {:?}", e),
    }
}

#[test]
fn lib_target_is_preferred_over_bin() {
    let mut a = Analyzer::new("/pkg".to_string());
    let meta = PackageMeta {
        version: "2.0.0".to_string(),
        targets: vec![
            target("tool", "bin", "/pkg/src/main.rs"),
            target("my_crate", "lib", "/pkg/src/lib.rs"),
        ],
    };
    open_package(&mut a, meta);
    answer_file_exists(&mut a, "/pkg/src/lib.rs", false);
    let r = finish_ok(a);
    assert_eq!(r.crate_.name.as_str(), "my_crate");
    assert_eq!(r.crate_.version.as_str(), "2.0.0");
}

#[test]
fn first_bin_target_is_fallback() {
    let mut a = Analyzer::new("/pkg".to_string());
    let meta = PackageMeta {
        version: "0.3.0".to_string(),
        targets: vec![
            target("helper", "example", "/pkg/examples/h.rs"),
            target("tool", "bin", "/pkg/src/main.rs"),
            target("tool2", "bin", "/pkg/src/bin/tool2.rs"),
        ],
    };
    open_package(&mut a, meta);
    answer_file_exists(&mut a, "/pkg/src/main.rs", false);
    let r = finish_ok(a);
    assert_eq!(r.crate_.name.as_str(), "tool");
}

#[test]
fn unreadable_module_file_is_fatal() {
    let mut a = Analyzer::new("/pkg".to_string());
    open_package(&mut a, simple_meta());
    answer_file_exists(&mut a, "/pkg/src/lib.rs", true);
    answer_read(&mut a, "/pkg/src/lib.rs", Some("pub mod m;\n"));
    answer_file_exists(&mut a, "/pkg/src/m.rs", true);
    answer_read(&mut a, "/pkg/src/m.rs", None);
    match finish_err(a) {
        AnalysisError::Io { path } => assert_eq!(path.as_str(), "/pkg/src/m.rs"),
        e => panic!("wrong error: {:?}", e),
    }
}

#[test]
fn malformed_declaration_is_fatal() {
    let mut a = Analyzer::new("/pkg".to_string());
    open_package(&mut a, simple_meta());
    answer_file_exists(&mut a, "/pkg/src/lib.rs", true);
    answer_read(&mut a, "/pkg/src/lib.rs", Some("pub mod my::mod;\n"));
    match finish_err(a) {
        AnalysisError::Parse { file } => assert_eq!(file.as_deref(), Some("/pkg/src/lib.rs")),
        e => panic!("wrong error: {:?}", e),
    }
}
