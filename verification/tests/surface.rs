//! The remaining operations of the surface: the checked relative and
//! absolute flavors, the builders without separator rewriting, and the
//! corners of the grammar.

use manifest_dir_paths::emit::Output;
use manifest_dir_paths::parse::{JoinBuilderNoBeautify, JoinBuilderNoBeautifyWithDefaultValue};
use manifest_dir_paths::resolver::{
    directory_absolute_path, directory_relative_path, exist_absolute_path, exist_relative_path,
    file_absolute_path, file_relative_path, finish_with_status, get_parent,
    not_directory_absolute_path, not_directory_relative_path, path, Check, FsStatus, Step,
};
use manifest_dir_paths::tokens::{Delim, Token};

fn lit(s: &str) -> Token {
    Token::LitStr(s.to_string())
}

fn comma() -> Token {
    Token::Punct(',')
}

fn done_failure(s: Step) -> String {
    match s {
        Step::Done(Output::Fail(m)) => m,
        _ => panic!("expected an immediate failure"),
    }
}

fn inspect_of(s: Step) -> (String, Check) {
    match s {
        Step::Inspect(p, c) => (p, c),
        Step::Done(_) => panic!("expected an inspection step"),
    }
}

#[test]
fn checked_relative_flavors_reject_absolute_input() {
    let msg = "The path \"/usr\" is not relative";
    assert_eq!(done_failure(exist_relative_path("/r", &vec![lit("/usr")])), msg);
    assert_eq!(done_failure(directory_relative_path("/r", &vec![lit("/usr")])), msg);
    assert_eq!(done_failure(not_directory_relative_path("/r", &vec![lit("/usr")])), msg);
    assert_eq!(done_failure(file_relative_path("/r", &vec![lit("/usr")])), msg);
}

#[test]
fn checked_absolute_flavors_reject_relative_input() {
    let msg = "The path \"usr\" is not absolute";
    assert_eq!(done_failure(exist_absolute_path(&vec![lit("usr")])), msg);
    assert_eq!(done_failure(directory_absolute_path(&vec![lit("usr")])), msg);
    assert_eq!(done_failure(not_directory_absolute_path(&vec![lit("usr")])), msg);
    assert_eq!(done_failure(file_absolute_path(&vec![lit("usr")])), msg);
}

#[test]
fn checked_relative_flavor_resolves_and_inspects() {
    let (p, c) = inspect_of(directory_relative_path("/proj", &vec![lit("src")]));
    assert_eq!(p, "/proj/src");
    assert_eq!(c, Check::Directory);
}

#[test]
fn checked_absolute_flavor_keeps_the_path() {
    let (p, c) = inspect_of(exist_absolute_path(&vec![lit("/usr")]));
    assert_eq!(p, "/usr");
    assert_eq!(c, Check::Exists);
    let present = FsStatus { exists: true, is_dir: true, is_file: false };
    match finish_with_status(&p, c, present) {
        Output::Literal(s) => assert_eq!(s, "/usr"),
        _ => panic!("expected a literal"),
    }
}

#[test]
fn single_element_tuple_flattens_to_its_leaf() {
    // ("foo",)
    let input = vec![Token::Group(Delim::Paren, vec![lit("foo"), comma()])];
    match path("/r", &input) {
        Output::Literal(s) => assert_eq!(s, "/r/foo"),
        _ => panic!("expected a literal"),
    }
}

#[test]
fn empty_tuple_contributes_no_segment() {
    // (): no segments at all, so the root is joined with an empty segment
    let input = vec![Token::Group(Delim::Paren, vec![])];
    match path("/r", &input) {
        Output::Literal(s) => assert_eq!(s, "/r/"),
        _ => panic!("expected a literal"),
    }
}

#[test]
fn invisible_group_is_transparent() {
    let input = vec![Token::Group(Delim::Invisible, vec![lit("/usr")])];
    match path("/r", &input) {
        Output::Literal(s) => assert_eq!(s, "/usr"),
        _ => panic!("expected a literal"),
    }
}

#[test]
fn default_alone_leaves_an_empty_path() {
    // the empty path has no parent, so the default is spliced
    let input = vec![
        Token::Ident("default".to_string()),
        Token::Punct('='),
        lit("/home"),
        comma(),
    ];
    match get_parent(&input) {
        Output::Splice(ts) => assert_eq!(ts.len(), 1),
        _ => panic!("expected the default tokens"),
    }
}

#[test]
fn no_beautify_builders_parse_alike() {
    let input = vec![lit("src"), comma(), lit("lib.rs")];
    let jb = JoinBuilderNoBeautify::parse(&input).unwrap();
    assert_eq!(String::from(jb), "src/lib.rs");
    let input = vec![lit("src/lib.rs")];
    let jb = JoinBuilderNoBeautifyWithDefaultValue::parse(&input).unwrap();
    assert_eq!(jb.0, "src/lib.rs");
    assert!(jb.1.is_none());
}
