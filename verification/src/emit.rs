//! The output of one macro expansion, and the single place where successes
//! and failures become output.
//!
//! A successful expansion is a string literal (or, for operations with a
//! fallback, the default expression's tokens spliced unevaluated). A failed
//! one is a construct that fails the compilation with a message naming the
//! offending path: the path stands quoted in the message, with `"` and `\`
//! escaped by a backslash.

use vstd::prelude::*;

use crate::tokens::{token_views, Token};

verus! {

/// What a macro expansion produces.
pub enum Output {
    /// A string literal holding the given text.
    Literal(String),
    /// The given tokens, spliced out unevaluated.
    Splice(Vec<Token>),
    /// A construct that fails the compilation with the given message.
    Fail(String),
}

/// One character as it stands inside a quoted path: `"` and `\` gain a
/// leading backslash, every other character stands as it is.
pub open spec fn esc_char(c: char) -> Seq<char> {
    if c == '"' || c == '\\' {
        seq!['\\', c]
    } else {
        seq![c]
    }
}

/// A character sequence with `"` and `\` escaped.
pub open spec fn escaped(p: Seq<char>) -> Seq<char>
    decreases p.len(),
{
    if p.len() == 0 {
        Seq::empty()
    } else {
        esc_char(p[0]) + escaped(p.drop_first())
    }
}

/// A path as it stands inside a message: quoted and escaped.
pub open spec fn quoted(p: Seq<char>) -> Seq<char> {
    seq!['"'] + escaped(p) + seq!['"']
}

/// Escaping distributes over appending one character.
proof fn lemma_escaped_snoc(p: Seq<char>, c: char)
    ensures
        escaped(p.push(c)) == escaped(p) + esc_char(c),
    decreases p.len(),
{
    if p.len() == 0 {
        assert(p.push(c).drop_first() =~= Seq::<char>::empty());
        assert(p.push(c)[0] == c);
        assert(escaped(Seq::<char>::empty()) == Seq::<char>::empty());
        assert(escaped(p.push(c)) == esc_char(c) + escaped(p.push(c).drop_first()));
        assert(escaped(p.push(c)) =~= esc_char(c));
        assert(escaped(p) + esc_char(c) =~= esc_char(c));
    } else {
        assert(p.push(c).drop_first() =~= p.drop_first().push(c));
        lemma_escaped_snoc(p.drop_first(), c);
        assert(escaped(p.push(c)) == esc_char(p[0]) + (escaped(p.drop_first()) + esc_char(c)));
        assert(esc_char(p[0]) + (escaped(p.drop_first()) + esc_char(c)) =~= (esc_char(p[0])
            + escaped(p.drop_first())) + esc_char(c));
    }
}

/// Appends the quoted, escaped path onto the message being built.
fn push_quoted(out: &mut String, p: &str)
    ensures
        final(out)@ == old(out)@ + quoted(p@),
{
    out.append("\"");
    proof {
        reveal_strlit("\"");
        assert(out@ =~= old(out)@ + seq!['"']);
        assert(p@.subrange(0, 0) =~= Seq::<char>::empty());
    }
    let n = p.unicode_len();
    let mut i: usize = 0;
    while i < n
        invariant
            i <= n,
            n == p@.len(),
            out@ == old(out)@ + seq!['"'] + escaped(p@.subrange(0, i as int)),
        decreases n - i,
    {
        let ghost pre = out@;
        let c = p.get_char(i);
        if c == '"' {
            out.append("\\\"");
            proof {
                reveal_strlit("\\\"");
                assert(out@ =~= pre + esc_char(c));
            }
        } else if c == '\\' {
            out.append("\\\\");
            proof {
                reveal_strlit("\\\\");
                assert(out@ =~= pre + esc_char(c));
            }
        } else {
            let piece = p.substring_char(i, i + 1);
            out.append(piece);
            proof {
                assert(piece@ =~= seq![p@[i as int]]);
                assert(out@ =~= pre + esc_char(c));
            }
        }
        proof {
            assert(p@.subrange(0, i + 1) =~= p@.subrange(0, i as int).push(p@[i as int]));
            lemma_escaped_snoc(p@.subrange(0, i as int), p@[i as int]);
            assert(out@ =~= old(out)@ + seq!['"'] + escaped(p@.subrange(0, i + 1)));
        }
        i = i + 1;
    }
    proof {
        assert(p@.subrange(0, n as int) =~= p@);
    }
    out.append("\"");
    proof {
        reveal_strlit("\"");
        assert(out@ =~= old(out)@ + quoted(p@));
    }
}

/// A diagnostic message: the prefix, then the quoted path, then the suffix.
fn build_message(prefix: &str, p: &str, suffix: &str) -> (m: String)
    ensures
        m@ == prefix@ + quoted(p@) + suffix@,
{
    let mut m = prefix.to_owned();
    push_quoted(&mut m, p);
    m.append(suffix);
    proof {
        assert(m@ =~= prefix@ + quoted(p@) + suffix@);
    }
    m
}

/// The message of a missing path.
pub open spec fn msg_not_exist(p: Seq<char>) -> Seq<char> {
    "The path "@ + quoted(p) + " does not exist"@
}

/// The message of a path that had to be a directory and is not.
pub open spec fn msg_not_directory(p: Seq<char>) -> Seq<char> {
    "The path "@ + quoted(p) + " is not a directory"@
}

/// The message of a path that had not to be a directory and is one.
pub open spec fn msg_is_directory(p: Seq<char>) -> Seq<char> {
    "The path "@ + quoted(p) + " is a directory"@
}

/// The message of a path that had to be a regular file and is not.
pub open spec fn msg_not_file(p: Seq<char>) -> Seq<char> {
    "The path "@ + quoted(p) + " is not a file"@
}

/// The message of an absolute path where a relative one was required.
pub open spec fn msg_not_relative(p: Seq<char>) -> Seq<char> {
    "The path "@ + quoted(p) + " is not relative"@
}

/// The message of a relative path where an absolute one was required.
pub open spec fn msg_not_absolute(p: Seq<char>) -> Seq<char> {
    "The path "@ + quoted(p) + " is not absolute"@
}

/// The message of a path without a file name.
pub open spec fn msg_no_file_name(p: Seq<char>) -> Seq<char> {
    "The path "@ + quoted(p) + " has no file name"@
}

/// The message of a path without a file stem.
pub open spec fn msg_no_file_stem(p: Seq<char>) -> Seq<char> {
    "The path "@ + quoted(p) + " has no file stem"@
}

/// The message of a path without a file extension.
pub open spec fn msg_no_extension(p: Seq<char>) -> Seq<char> {
    "The path "@ + quoted(p) + " has no file extension"@
}

/// The message of a path without a parent.
pub open spec fn msg_no_parent(p: Seq<char>) -> Seq<char> {
    "The path "@ + quoted(p) + " has no parent"@
}

/// The message of a path whose media type cannot be guessed.
pub open spec fn msg_no_mime(p: Seq<char>) -> Seq<char> {
    "The path "@ + quoted(p) + " can not be guessed for its mime type"@
}

/// The message of input that does not parse.
pub open spec fn msg_parse() -> Seq<char> {
    "the input is not literal strings or literal string tuples"@
}

/// An output that fails the compilation with the given message.
pub fn compilation_error(s: &str) -> (r: Output)
    ensures
        r matches Output::Fail(m) && m@ == s@,
{
    Output::Fail(s.to_owned())
}

/// An output that fails the compilation because the path does not exist.
pub fn compile_error_not_exist(p: &str) -> (r: Output)
    ensures
        r matches Output::Fail(m) && m@ == msg_not_exist(p@),
{
    Output::Fail(build_message("The path ", p, " does not exist"))
}

/// An output that fails the compilation because the path is not a directory.
pub fn compile_error_not_directory(p: &str) -> (r: Output)
    ensures
        r matches Output::Fail(m) && m@ == msg_not_directory(p@),
{
    Output::Fail(build_message("The path ", p, " is not a directory"))
}

/// An output that fails the compilation because the path is a directory,
/// or, when it does not exist at all, because it does not exist.
pub fn compile_error_directory(p: &str, exists: bool) -> (r: Output)
    ensures
        r matches Output::Fail(m) && m@ == (if exists {
            msg_is_directory(p@)
        } else {
            msg_not_exist(p@)
        }),
{
    if exists {
        Output::Fail(build_message("The path ", p, " is a directory"))
    } else {
        compile_error_not_exist(p)
    }
}

/// An output that fails the compilation because the path is not a file.
pub fn compile_error_not_file(p: &str) -> (r: Output)
    ensures
        r matches Output::Fail(m) && m@ == msg_not_file(p@),
{
    Output::Fail(build_message("The path ", p, " is not a file"))
}

/// An output that fails the compilation because the path is not relative.
pub fn compile_error_not_relative(p: &str) -> (r: Output)
    ensures
        r matches Output::Fail(m) && m@ == msg_not_relative(p@),
{
    Output::Fail(build_message("The path ", p, " is not relative"))
}

/// An output that fails the compilation because the path is not absolute.
pub fn compile_error_not_absolute(p: &str) -> (r: Output)
    ensures
        r matches Output::Fail(m) && m@ == msg_not_absolute(p@),
{
    Output::Fail(build_message("The path ", p, " is not absolute"))
}

/// An output that fails the compilation because the path has no file name.
pub fn compile_error_no_file_name(p: &str) -> (r: Output)
    ensures
        r matches Output::Fail(m) && m@ == msg_no_file_name(p@),
{
    Output::Fail(build_message("The path ", p, " has no file name"))
}

/// An output that fails the compilation because the path has no file stem.
pub fn compile_error_no_file_stem(p: &str) -> (r: Output)
    ensures
        r matches Output::Fail(m) && m@ == msg_no_file_stem(p@),
{
    Output::Fail(build_message("The path ", p, " has no file stem"))
}

/// An output that fails the compilation because the path has no file
/// extension.
pub fn compile_error_no_extension(p: &str) -> (r: Output)
    ensures
        r matches Output::Fail(m) && m@ == msg_no_extension(p@),
{
    Output::Fail(build_message("The path ", p, " has no file extension"))
}

/// An output that fails the compilation because the path has no parent.
pub fn compile_error_no_parent(p: &str) -> (r: Output)
    ensures
        r matches Output::Fail(m) && m@ == msg_no_parent(p@),
{
    Output::Fail(build_message("The path ", p, " has no parent"))
}

/// An output that fails the compilation because no media type is known for
/// the path.
pub fn compile_error_no_mime(p: &str) -> (r: Output)
    ensures
        r matches Output::Fail(m) && m@ == msg_no_mime(p@),
{
    Output::Fail(build_message("The path ", p, " can not be guessed for its mime type"))
}

/// An output that fails the compilation because the input does not parse.
pub fn parse_failure() -> (r: Output)
    ensures
        r matches Output::Fail(m) && m@ == msg_parse(),
{
    compilation_error("the input is not literal strings or literal string tuples")
}

/// The successful output: the path as a string literal.
pub fn output_path(p: &str) -> (r: Output)
    ensures
        r matches Output::Literal(s) && s@ == p@,
{
    Output::Literal(p.to_owned())
}

/// The fallback output: the default expression's tokens, unevaluated.
pub fn output_expr(tokens: Vec<Token>) -> (r: Output)
    ensures
        r matches Output::Splice(ts) && token_views(ts@) == token_views(tokens@),
{
    Output::Splice(tokens)
}

} // verus!
