//! Tests of the declaration extractor alone, through `Module::parse`, and
//! of the result constructor.

use analyzer::data::{AnalysisResult, Crate, Module};

fn prefix(parts: &[&str]) -> Vec<String> {
    parts.iter().map(|s| s.to_string()).collect()
}

fn path_strs(path: &[String]) -> Vec<&str> {
    path.iter().map(|s| s.as_str()).collect()
}

#[test]
fn parse_collects_docstring_declarations_and_items() {
    let text = "//! Top doc\npub mod alpha;\npub mod beta;\n/// S doc\npub struct S;\n/// E doc\npub enum E {}\n/// f doc\npub fn f() {}\n";
    let p = prefix(&["root"]);
    let (m, ss, es, fs) = Module::parse(Some("lib.rs"), &p, text).unwrap();
    assert_eq!(m.file.as_deref(), Some("lib.rs"));
    assert_eq!(path_strs(&m.path), vec!["root"]);
    assert_eq!(m.docstring.as_deref(), Some("Top doc"));
    assert_eq!(m.declarations, vec!["alpha".to_string(), "beta".to_string()]);
    assert_eq!(ss.len(), 1);
    assert_eq!(path_strs(&ss[0].path), vec!["root", "S"]);
    assert_eq!(ss[0].docstring.as_deref(), Some("S doc"));
    assert_eq!(es.len(), 1);
    assert_eq!(path_strs(&es[0].path), vec!["root", "E"]);
    assert_eq!(es[0].docstring.as_deref(), Some("E doc"));
    assert_eq!(fs.len(), 1);
    assert_eq!(path_strs(&fs[0].path), vec!["root", "f"]);
    assert_eq!(fs[0].docstring.as_deref(), Some("f doc"));
}

#[test]
fn multi_line_docstrings_are_joined_with_newlines() {
    let text = "//! first\n//! second\n/// a\n/// b\npub struct S;\n";
    let p = prefix(&["c"]);
    let (m, ss, _, _) = Module::parse(None, &p, text).unwrap();
    assert_eq!(m.docstring.as_deref(), Some("first\nsecond"));
    assert_eq!(ss[0].docstring.as_deref(), Some("a\nb"));
}

#[test]
fn blank_line_detaches_pending_doc() {
    let text = "/// lost\n\npub struct S;\n";
    let p = prefix(&["c"]);
    let (_, ss, _, _) = Module::parse(None, &p, text).unwrap();
    assert_eq!(ss[0].docstring, None);
}

#[test]
fn undocumented_module_has_no_docstring() {
    let text = "pub mod a;\n";
    let p = prefix(&["c"]);
    let (m, _, _, _) = Module::parse(None, &p, text).unwrap();
    assert_eq!(m.docstring, None);
    assert_eq!(m.declarations, vec!["a".to_string()]);
}

#[test]
fn item_name_stops_at_first_non_identifier_character() {
    let text = "pub struct Wrapper<T>(T);\npub fn takes(x: u8) {}\npub enum Choice { A }\n";
    let p = prefix(&["c"]);
    let (_, ss, es, fs) = Module::parse(None, &p, text).unwrap();
    assert_eq!(path_strs(&ss[0].path), vec!["c", "Wrapper"]);
    assert_eq!(path_strs(&fs[0].path), vec!["c", "takes"]);
    assert_eq!(path_strs(&es[0].path), vec!["c", "Choice"]);
}

#[test]
fn surrounding_whitespace_is_ignored() {
    let text = "   //!   padded doc\n\t pub mod   spaced ;\n";
    let p = prefix(&["c"]);
    let (m, _, _, _) = Module::parse(None, &p, text).unwrap();
    // one space after the marker separates it from the text; the rest stays
    assert_eq!(m.docstring.as_deref(), Some("  padded doc"));
    assert_eq!(m.declarations, vec!["spaced".to_string()]);
}

#[test]
fn mod_declaration_without_semicolon_fails() {
    let p = prefix(&["c"]);
    let e = Module::parse(Some("bad.rs"), &p, "pub mod oops\n").unwrap_err();
    assert_eq!(e.file.as_deref(), Some("bad.rs"));
}

#[test]
fn mod_declaration_with_invalid_name_fails() {
    let p = prefix(&["c"]);
    assert!(Module::parse(None, &p, "pub mod a::b;\n").is_err());
    assert!(Module::parse(None, &p, "pub mod ;\n").is_err());
}

#[test]
fn item_without_name_fails() {
    let p = prefix(&["c"]);
    assert!(Module::parse(None, &p, "pub struct ;\n").is_err());
    assert!(Module::parse(None, &p, "pub enum <T> {}\n").is_err());
    assert!(Module::parse(None, &p, "pub fn (x: u8) {}\n").is_err());
}

#[test]
fn non_public_and_other_lines_are_ignored() {
    let text = "use something::else_;\nmod private_mod;\nstruct Hidden;\nfn helper() {}\n// plain comment\n";
    let p = prefix(&["c"]);
    let (m, ss, es, fs) = Module::parse(None, &p, text).unwrap();
    assert_eq!(m.docstring, None);
    assert!(m.declarations.is_empty());
    assert!(ss.is_empty());
    assert!(es.is_empty());
    assert!(fs.is_empty());
}

#[test]
fn empty_text_yields_empty_module() {
    let p = prefix(&["c"]);
    let (m, ss, es, fs) = Module::parse(None, &p, "").unwrap();
    assert_eq!(m.docstring, None);
    assert!(m.declarations.is_empty());
    assert!(ss.is_empty() && es.is_empty() && fs.is_empty());
}

#[test]
fn carriage_returns_are_treated_as_line_padding() {
    let text = "//! doc\r\npub mod a;\r\n";
    let p = prefix(&["c"]);
    let (m, _, _, _) = Module::parse(None, &p, text).unwrap();
    assert_eq!(m.docstring.as_deref(), Some("doc"));
    assert_eq!(m.declarations, vec!["a".to_string()]);
}

#[test]
fn pending_doc_is_consumed_by_the_first_item() {
    let text = "/// only for S\npub struct S;\npub struct T;\n";
    let p = prefix(&["c"]);
    let (_, ss, _, _) = Module::parse(None, &p, text).unwrap();
    assert_eq!(ss.len(), 2);
    assert_eq!(ss[0].docstring.as_deref(), Some("only for S"));
    assert_eq!(ss[1].docstring, None);
}

#[test]
fn last_line_without_newline_is_still_read() {
    let p = prefix(&["c"]);
    let (m, ss, _, _) = Module::parse(None, &p, "pub mod tail;\npub struct S;").unwrap();
    assert_eq!(m.declarations, vec!["tail".to_string()]);
    assert_eq!(ss.len(), 1);
}

#[test]
fn new_result_is_empty_but_for_the_identity() {
    let r = AnalysisResult::new(Crate {
        name: "c".to_string(),
        version: "1.2.3".to_string(),
    });
    assert_eq!(r.crate_.name.as_str(), "c");
    assert_eq!(r.crate_.version.as_str(), "1.2.3");
    assert!(r.modules.is_empty());
    assert!(r.structs.is_empty());
    assert!(r.enums.is_empty());
    assert!(r.functions.is_empty());
}
