//! The resolver operations, end to end: parsing, joining, resolving and the
//! diagnostics of the path-flavored operations.

use manifest_dir_paths::emit::Output;
use manifest_dir_paths::resolver::{
    absolute_path, directory_path, exist_path, file_path, finish_with_status, not_directory_path,
    path, relative_path, Check, FsStatus, Step,
};
use manifest_dir_paths::tokens::{Delim, Token};

fn lit(s: &str) -> Token {
    Token::LitStr(s.to_string())
}

fn comma() -> Token {
    Token::Punct(',')
}

fn tuple(ts: Vec<Token>) -> Token {
    Token::Group(Delim::Paren, ts)
}

fn literal_of(o: Output) -> String {
    match o {
        Output::Literal(s) => s,
        Output::Splice(_) => panic!("expected a literal, got spliced tokens"),
        Output::Fail(m) => panic!("expected a literal, got a failure: {}", m),
    }
}

fn failure_of(o: Output) -> String {
    match o {
        Output::Fail(m) => m,
        _ => panic!("expected a failure"),
    }
}

fn inspect_of(s: Step) -> (String, Check) {
    match s {
        Step::Inspect(p, c) => (p, c),
        Step::Done(_) => panic!("expected an inspection step"),
    }
}

#[test]
fn absolute_input_is_kept_for_any_root() {
    let input = vec![lit("/usr")];
    assert_eq!(literal_of(path("/proj", &input)), "/usr");
    assert_eq!(literal_of(path("/somewhere/else", &input)), "/usr");
}

#[test]
fn relative_input_joins_onto_root() {
    let input = vec![lit("Cargo.toml")];
    assert_eq!(literal_of(path("/proj", &input)), "/proj/Cargo.toml");
}

#[test]
fn segments_join_one_by_one() {
    let input = vec![lit("src"), comma(), lit("lib.rs")];
    assert_eq!(literal_of(path("/proj", &input)), "/proj/src/lib.rs");
}

#[test]
fn absolute_segment_resets_the_join() {
    let input = vec![lit("src"), comma(), lit("lib.rs"), comma(), lit("/bin")];
    assert_eq!(literal_of(path("/proj", &input)), "/bin");
}

#[test]
fn trailing_comma_is_allowed() {
    let input = vec![lit("a"), comma(), lit("b"), comma()];
    assert_eq!(literal_of(path("/r", &input)), "/r/a/b");
}

#[test]
fn nested_tuples_flatten_depth_first() {
    // ("a", ("b", "c")) and ("a", "b", "c") and "a", "b", "c" flatten alike
    let nested = vec![tuple(vec![
        lit("a"),
        comma(),
        tuple(vec![lit("b"), comma(), lit("c")]),
    ])];
    let flat_tuple = vec![tuple(vec![lit("a"), comma(), lit("b"), comma(), lit("c")])];
    let flat = vec![lit("a"), comma(), lit("b"), comma(), lit("c")];
    let a = literal_of(path("/r", &nested));
    let b = literal_of(path("/r", &flat_tuple));
    let c = literal_of(path("/r", &flat));
    assert_eq!(a, "/r/a/b/c");
    assert_eq!(a, b);
    assert_eq!(b, c);
}

#[test]
fn deeply_nested_tuples_flatten_left_to_right() {
    // (("foo", "bar", ("a", "b")), ("c", "d"))
    let input = vec![
        tuple(vec![
            lit("foo"),
            comma(),
            lit("bar"),
            comma(),
            tuple(vec![lit("a"), comma(), lit("b")]),
        ]),
        comma(),
        tuple(vec![lit("c"), comma(), lit("d")]),
    ];
    assert_eq!(literal_of(path("/r", &input)), "/r/foo/bar/a/b/c/d");
}

#[test]
fn empty_input_is_a_parse_error() {
    let input: Vec<Token> = vec![];
    let m = failure_of(path("/r", &input));
    assert_eq!(m, "the input is not literal strings or literal string tuples");
}

#[test]
fn non_literal_argument_is_a_parse_error() {
    let input = vec![Token::Ident("foo".to_string())];
    failure_of(path("/r", &input));
    let input = vec![Token::Other("1".to_string())];
    failure_of(path("/r", &input));
}

#[test]
fn missing_comma_between_literals_is_a_parse_error() {
    let input = vec![lit("a"), lit("b")];
    failure_of(path("/r", &input));
}

#[test]
fn bracket_and_brace_groups_are_parse_errors() {
    let input = vec![Token::Group(Delim::Bracket, vec![lit("a")])];
    failure_of(path("/r", &input));
    let input = vec![Token::Group(Delim::Brace, vec![lit("a")])];
    failure_of(path("/r", &input));
}

#[test]
fn default_prefix_is_not_accepted_here() {
    let input = vec![
        Token::Ident("default".to_string()),
        Token::Punct('='),
        lit("x"),
        comma(),
        lit("a"),
    ];
    failure_of(path("/r", &input));
}

#[test]
fn exist_path_succeeds_iff_the_path_exists() {
    let input = vec![lit("Cargo.toml")];
    let (p, c) = inspect_of(exist_path("/proj", &input));
    assert_eq!(p, "/proj/Cargo.toml");
    assert_eq!(c, Check::Exists);
    let there = FsStatus { exists: true, is_dir: false, is_file: true };
    assert_eq!(literal_of(finish_with_status(&p, c, there)), "/proj/Cargo.toml");
    let missing = FsStatus { exists: false, is_dir: false, is_file: false };
    let m = failure_of(finish_with_status(&p, c, missing));
    assert_eq!(m, "The path \"/proj/Cargo.toml\" does not exist");
}

#[test]
fn directory_check_failures_name_the_expectation() {
    let input = vec![lit("src")];
    let (p, c) = inspect_of(directory_path("/proj", &input));
    assert_eq!(c, Check::Directory);
    let file = FsStatus { exists: true, is_dir: false, is_file: true };
    assert_eq!(
        failure_of(finish_with_status(&p, c, file)),
        "The path \"/proj/src\" is not a directory"
    );
    let dir = FsStatus { exists: true, is_dir: true, is_file: false };
    assert_eq!(literal_of(finish_with_status(&p, c, dir)), "/proj/src");
}

#[test]
fn not_directory_check_tells_directory_from_missing() {
    let input = vec![lit("Cargo.toml")];
    let (p, c) = inspect_of(not_directory_path("/proj", &input));
    assert_eq!(c, Check::NotDirectory);
    let dir = FsStatus { exists: true, is_dir: true, is_file: false };
    assert_eq!(
        failure_of(finish_with_status(&p, c, dir)),
        "The path \"/proj/Cargo.toml\" is a directory"
    );
    let missing = FsStatus { exists: false, is_dir: false, is_file: false };
    assert_eq!(
        failure_of(finish_with_status(&p, c, missing)),
        "The path \"/proj/Cargo.toml\" does not exist"
    );
    let file = FsStatus { exists: true, is_dir: false, is_file: true };
    assert_eq!(literal_of(finish_with_status(&p, c, file)), "/proj/Cargo.toml");
}

#[test]
fn file_check_failure_names_the_expectation() {
    let input = vec![lit("src")];
    let (p, c) = inspect_of(file_path("/proj", &input));
    assert_eq!(c, Check::RegularFile);
    let dir = FsStatus { exists: true, is_dir: true, is_file: false };
    assert_eq!(failure_of(finish_with_status(&p, c, dir)), "The path \"/proj/src\" is not a file");
}

#[test]
fn relative_flavor_rejects_absolute_input() {
    let input = vec![lit("/usr")];
    let m = failure_of(relative_path("/proj", &input));
    assert_eq!(m, "The path \"/usr\" is not relative");
}

#[test]
fn absolute_flavor_rejects_relative_input() {
    let input = vec![lit("Cargo.toml")];
    let m = failure_of(absolute_path(&input));
    assert_eq!(m, "The path \"Cargo.toml\" is not absolute");
}

#[test]
fn relative_flavor_resolves_relative_input() {
    let input = vec![lit("Cargo.toml")];
    assert_eq!(literal_of(relative_path("/proj", &input)), "/proj/Cargo.toml");
}

#[test]
fn absolute_flavor_keeps_absolute_input() {
    let input = vec![lit("/usr")];
    assert_eq!(literal_of(absolute_path(&input)), "/usr");
}

#[test]
fn quotes_and_backslashes_are_escaped_in_messages() {
    let input = vec![lit("/a\"b\\c")];
    let m = failure_of(relative_path("/proj", &input));
    assert_eq!(m, "The path \"/a\\\"b\\\\c\" is not relative");
}
