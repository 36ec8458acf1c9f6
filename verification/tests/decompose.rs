//! Decomposition, fallbacks, media-type lookup and the building blocks:
//! joining, splitting and the parsed builders.

use manifest_dir_paths::components::{extension_of, file_name_of, file_stem_of, parent_of};
use manifest_dir_paths::emit::Output;
use manifest_dir_paths::parse::{JoinBuilder, JoinBuilderWithDefaultValue};
use manifest_dir_paths::paths::join_segments;
use manifest_dir_paths::resolver::{get_extension, get_file_name, get_file_stem, get_parent,
    mime_guess};
use manifest_dir_paths::tokens::{Delim, Token};

fn lit(s: &str) -> Token {
    Token::LitStr(s.to_string())
}

fn comma() -> Token {
    Token::Punct(',')
}

fn with_default(default_tokens: Vec<Token>, mut rest: Vec<Token>) -> Vec<Token> {
    let mut v = vec![Token::Ident("default".to_string()), Token::Punct('=')];
    v.extend(default_tokens);
    v.push(comma());
    v.append(&mut rest);
    v
}

fn literal_of(o: Output) -> String {
    match o {
        Output::Literal(s) => s,
        Output::Splice(_) => panic!("expected a literal, got spliced tokens"),
        Output::Fail(m) => panic!("expected a literal, got a failure: {}", m),
    }
}

fn failure_of(o: Output) -> String {
    match o {
        Output::Fail(m) => m,
        _ => panic!("expected a failure"),
    }
}

fn splice_of(o: Output) -> Vec<Token> {
    match o {
        Output::Splice(ts) => ts,
        _ => panic!("expected spliced tokens"),
    }
}

#[test]
fn extension_of_a_source_file_is_rs() {
    let input = vec![lit("src/lib.rs")];
    assert_eq!(literal_of(get_extension(&input)), "rs");
}

#[test]
fn missing_extension_uses_the_default() {
    let input = with_default(vec![lit("rs")], vec![lit("src/lib")]);
    let spliced = splice_of(get_extension(&input));
    assert_eq!(spliced.len(), 1);
    match &spliced[0] {
        Token::LitStr(s) => assert_eq!(s.as_str(), "rs"),
        _ => panic!("expected the default literal back"),
    }
}

#[test]
fn missing_extension_without_default_fails() {
    let input = vec![lit("src/lib")];
    assert_eq!(failure_of(get_extension(&input)), "The path \"src/lib\" has no file extension");
}

#[test]
fn parent_of_a_source_file_ends_in_src() {
    let input = vec![lit("src/lib.rs")];
    assert_eq!(literal_of(get_parent(&input)), "src");
}

#[test]
fn root_has_no_parent_so_the_default_is_used() {
    let input = with_default(vec![lit("/home")], vec![lit("/")]);
    let spliced = splice_of(get_parent(&input));
    match &spliced[0] {
        Token::LitStr(s) => assert_eq!(s.as_str(), "/home"),
        _ => panic!("expected the default literal back"),
    }
}

#[test]
fn root_without_default_has_no_parent() {
    let input = vec![lit("/")];
    assert_eq!(failure_of(get_parent(&input)), "The path \"/\" has no parent");
}

#[test]
fn file_name_and_stem_of_a_source_file() {
    let input = vec![lit("src"), comma(), lit("lib.rs")];
    assert_eq!(literal_of(get_file_name(&input)), "lib.rs");
    let input = vec![lit("src"), comma(), lit("lib.rs")];
    assert_eq!(literal_of(get_file_stem(&input)), "lib");
}

#[test]
fn root_has_no_file_name() {
    let input = with_default(vec![lit("main.rs")], vec![lit("/")]);
    let spliced = splice_of(get_file_name(&input));
    match &spliced[0] {
        Token::LitStr(s) => assert_eq!(s.as_str(), "main.rs"),
        _ => panic!("expected the default literal back"),
    }
}

#[test]
fn default_expression_may_hold_several_tokens() {
    let default_tokens = vec![
        Token::Ident("concat".to_string()),
        Token::Punct('!'),
        Token::Group(Delim::Paren, vec![lit("a"), comma(), lit("b")]),
    ];
    let input = with_default(default_tokens, vec![lit("/")]);
    let spliced = splice_of(get_parent(&input));
    assert_eq!(spliced.len(), 3);
}

#[test]
fn missing_name_and_stem_without_default_fail() {
    let input = vec![lit("/")];
    assert_eq!(failure_of(get_file_name(&input)), "The path \"/\" has no file name");
    let input = vec![lit("/")];
    assert_eq!(failure_of(get_file_stem(&input)), "The path \"/\" has no file stem");
}

#[test]
fn hidden_file_has_a_stem_but_no_extension() {
    let input = vec![lit(".gitignore")];
    assert_eq!(literal_of(get_file_stem(&input)), ".gitignore");
    let input = vec![lit(".gitignore")];
    failure_of(get_extension(&input));
}

#[test]
fn trailing_dot_gives_an_empty_extension() {
    assert_eq!(extension_of("foo."), Some(String::new()));
    assert_eq!(file_stem_of("foo."), Some("foo".to_string()));
}

#[test]
fn decomposition_functions_follow_path_syntax() {
    assert_eq!(file_name_of("foo/bar/"), Some("bar".to_string()));
    assert_eq!(file_name_of("foo/.."), None);
    assert_eq!(file_name_of("."), None);
    assert_eq!(file_name_of(""), None);
    assert_eq!(parent_of("/"), None);
    assert_eq!(parent_of(""), None);
    assert_eq!(parent_of("foo"), Some(String::new()));
    assert_eq!(parent_of("/usr"), Some("/".to_string()));
    assert_eq!(parent_of("/usr/lib"), Some("/usr".to_string()));
    assert_eq!(parent_of("a//b"), Some("a".to_string()));
    assert_eq!(extension_of("a.b.c"), Some("c".to_string()));
}

#[test]
fn multi_byte_characters_decompose_cleanly() {
    assert_eq!(file_name_of("dir/naïve.txt"), Some("naïve.txt".to_string()));
    assert_eq!(file_stem_of("dir/naïve.txt"), Some("naïve".to_string()));
    assert_eq!(extension_of("dir/naïve.txt"), Some("txt".to_string()));
    assert_eq!(parent_of("dir/naïve.txt"), Some("dir".to_string()));
}

#[test]
fn decompose_and_rejoin_rebuilds_the_resolved_path() {
    let p = "/proj/src/lib.rs";
    let name = file_name_of(p).unwrap();
    let parent = parent_of(p).unwrap();
    let rebuilt = join_segments(&vec![parent, name]);
    assert_eq!(rebuilt, p);

    let q = "/proj/Cargo.toml";
    let rebuilt = join_segments(&vec![parent_of(q).unwrap(), file_name_of(q).unwrap()]);
    assert_eq!(rebuilt, q);
}

#[test]
fn join_segments_matches_iterative_join() {
    assert_eq!(join_segments(&vec!["a".to_string(), "b".to_string()]), "a/b");
    assert_eq!(join_segments(&vec!["a/".to_string(), "b".to_string()]), "a/b");
    assert_eq!(join_segments(&vec!["a".to_string(), "/b".to_string()]), "/b");
    assert_eq!(join_segments(&vec![String::new(), "b".to_string()]), "b");
    assert_eq!(join_segments(&vec!["a".to_string(), String::new()]), "a/");
    assert_eq!(join_segments(&Vec::<String>::new()), "");
}

#[test]
fn mime_lookup_goes_through_the_table() {
    let input = vec![lit("src/lib.rs")];
    assert_eq!(literal_of(mime_guess(&input)), "text/x-rust");
    let input = vec![lit("notes.txt")];
    assert_eq!(literal_of(mime_guess(&input)), "text/plain");
}

#[test]
fn unknown_extension_uses_the_default_or_fails() {
    let input = with_default(vec![lit("application/octet-stream")], vec![lit("Cargo.lock")]);
    let spliced = splice_of(mime_guess(&input));
    match &spliced[0] {
        Token::LitStr(s) => assert_eq!(s.as_str(), "application/octet-stream"),
        _ => panic!("expected the default literal back"),
    }
    let input = vec![lit("Cargo.lock")];
    assert_eq!(
        failure_of(mime_guess(&input)),
        "The path \"Cargo.lock\" can not be guessed for its mime type"
    );
}

#[test]
fn builders_join_their_segments() {
    let input = vec![lit("src"), comma(), lit("lib.rs")];
    let jb = JoinBuilder::parse(&input).unwrap();
    assert_eq!(String::from(jb), "src/lib.rs");
}

#[test]
fn builder_with_default_keeps_the_expression() {
    let input = with_default(vec![lit("rs")], vec![lit("src/lib")]);
    let jb = JoinBuilderWithDefaultValue::parse(&input).unwrap();
    assert_eq!(jb.0, "src/lib");
    assert!(jb.1.is_some());
    let input = vec![lit("src/lib")];
    let jb = JoinBuilderWithDefaultValue::parse(&input).unwrap();
    assert!(jb.1.is_none());
}

#[test]
fn empty_default_expression_is_a_parse_error() {
    let input = vec![Token::Ident("default".to_string()), Token::Punct('='), comma(), lit("a")];
    assert!(JoinBuilderWithDefaultValue::parse(&input).is_none());
}

#[test]
fn default_without_comma_is_a_parse_error() {
    let input = vec![Token::Ident("default".to_string()), Token::Punct('='), lit("rs")];
    assert!(JoinBuilderWithDefaultValue::parse(&input).is_none());
}
