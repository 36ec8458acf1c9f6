//! The operations of the macro surface, one function per operation.
//!
//! Every operation parses its input into path segments, joins them into a
//! path value, and resolves or decomposes it. The operations that must
//! consult the filesystem cannot finish on their own: they return a
//! [`Step`] that either is already done or names the resolved path and the
//! check still owed. The caller performs the query and hands the answer to
//! [`finish_with_status`], which turns it into the final output.

use vstd::prelude::*;

use crate::components::{extension_of, extension_spec, file_name_of, file_name_spec, file_stem_of,
    file_stem_spec, parent_of, parent_spec};
use crate::emit::{compile_error_directory, compile_error_no_extension,
    compile_error_no_file_name, compile_error_no_file_stem, compile_error_no_mime,
    compile_error_no_parent, compile_error_not_absolute, compile_error_not_directory,
    compile_error_not_exist, compile_error_not_file, compile_error_not_relative, msg_is_directory,
    msg_no_extension, msg_no_file_name, msg_no_file_stem, msg_no_mime, msg_no_parent,
    msg_not_absolute, msg_not_directory, msg_not_exist, msg_not_file, msg_not_relative, msg_parse,
    output_expr, output_path, parse_failure, Output};
use crate::mime::{mime_first_of, mime_lookup};
use crate::parse::{parse_input, parse_spec};
use crate::paths::{is_absolute, is_absolute_spec, join_all, join_one, join_push, join_segments,
    resolve_against, resolved_spec};
use crate::tokens::{token_views, SpecToken, Token};

verus! {

/// The filesystem's answer about one path.
#[derive(Clone, Copy, PartialEq, Eq, Debug, Structural)]
pub struct FsStatus {
    /// The path exists.
    pub exists: bool,
    /// The path is a directory.
    pub is_dir: bool,
    /// The path is a regular file.
    pub is_file: bool,
}

/// The check that an operation still owes on its resolved path.
#[derive(Clone, Copy, PartialEq, Eq, Debug, Structural)]
pub enum Check {
    /// The path must exist.
    Exists,
    /// The path must be a directory.
    Directory,
    /// The path must exist and not be a directory.
    NotDirectory,
    /// The path must be a regular file.
    RegularFile,
}

/// An operation that may still owe a filesystem check: either already done,
/// or the resolved path together with the check owed on it.
pub enum Step {
    /// The final output.
    Done(Output),
    /// The resolved path, to be checked against the filesystem.
    Inspect(String, Check),
}

/// What the filesystem-checking operations promise for the plain flavor:
/// a parse failure is already done, and otherwise the resolved path is
/// handed out for inspection with the requested check.
pub open spec fn inspect_outcome_any(
    root: Seq<char>,
    ts: Seq<SpecToken>,
    check: Check,
    r: Step,
) -> bool {
    match parse_spec(ts, false) {
        Option::Some(pr) => (r matches Step::Inspect(p, c) && p@ == resolved_spec(
            root,
            join_all(pr.0),
        ) && c == check),
        Option::None => (r matches Step::Done(o) && (o matches Output::Fail(m) && m@
            == msg_parse())),
    }
}

/// What the filesystem-checking operations promise for the relative flavor:
/// an absolute input fails at once, a relative one resolves against the
/// root and is handed out for inspection.
pub open spec fn inspect_outcome_relative(
    root: Seq<char>,
    ts: Seq<SpecToken>,
    check: Check,
    r: Step,
) -> bool {
    match parse_spec(ts, false) {
        Option::Some(pr) => {
            let joined = join_all(pr.0);
            if is_absolute_spec(joined) {
                r matches Step::Done(o) && (o matches Output::Fail(m) && m@ == msg_not_relative(
                    joined,
                ))
            } else {
                r matches Step::Inspect(p, c) && p@ == join_one(root, joined) && c == check
            }
        },
        Option::None => (r matches Step::Done(o) && (o matches Output::Fail(m) && m@
            == msg_parse())),
    }
}

/// What the filesystem-checking operations promise for the absolute flavor:
/// a relative input fails at once, an absolute one is handed out for
/// inspection unchanged.
pub open spec fn inspect_outcome_absolute(ts: Seq<SpecToken>, check: Check, r: Step) -> bool {
    match parse_spec(ts, false) {
        Option::Some(pr) => {
            let joined = join_all(pr.0);
            if is_absolute_spec(joined) {
                r matches Step::Inspect(p, c) && p@ == joined && c == check
            } else {
                r matches Step::Done(o) && (o matches Output::Fail(m) && m@ == msg_not_absolute(
                    joined,
                ))
            }
        },
        Option::None => (r matches Step::Done(o) && (o matches Output::Fail(m) && m@
            == msg_parse())),
    }
}

/// Parses and resolves for the plain flavor, naming the check owed.
fn inspect_any(root: &str, input: &Vec<Token>, check: Check) -> (r: Step)
    ensures
        inspect_outcome_any(root@, token_views(input@), check, r),
{
    match parse_input(input, false) {
        Option::None => Step::Done(parse_failure()),
        Option::Some(pr) => {
            let joined = join_segments(&pr.segments);
            let resolved = resolve_against(root, joined.as_str());
            Step::Inspect(resolved, check)
        },
    }
}

/// Parses and resolves for the relative flavor, naming the check owed.
fn inspect_relative(root: &str, input: &Vec<Token>, check: Check) -> (r: Step)
    ensures
        inspect_outcome_relative(root@, token_views(input@), check, r),
{
    match parse_input(input, false) {
        Option::None => Step::Done(parse_failure()),
        Option::Some(pr) => {
            let joined = join_segments(&pr.segments);
            if is_absolute(joined.as_str()) {
                Step::Done(compile_error_not_relative(joined.as_str()))
            } else {
                let mut acc = root.to_owned();
                join_push(&mut acc, joined.as_str());
                Step::Inspect(acc, check)
            }
        },
    }
}

/// Parses for the absolute flavor, naming the check owed.
fn inspect_absolute(input: &Vec<Token>, check: Check) -> (r: Step)
    ensures
        inspect_outcome_absolute(token_views(input@), check, r),
{
    match parse_input(input, false) {
        Option::None => Step::Done(parse_failure()),
        Option::Some(pr) => {
            let joined = join_segments(&pr.segments);
            if is_absolute(joined.as_str()) {
                Step::Inspect(joined, check)
            } else {
                Step::Done(compile_error_not_absolute(joined.as_str()))
            }
        },
    }
}

/// Turns the filesystem's answer about a resolved path into the final
/// output: the path as a literal when the check holds, the matching
/// diagnostic when it does not.
pub fn finish_with_status(p: &str, check: Check, status: FsStatus) -> (r: Output)
    ensures
        match check {
            Check::Exists => if status.exists {
                r matches Output::Literal(s) && s@ == p@
            } else {
                r matches Output::Fail(m) && m@ == msg_not_exist(p@)
            },
            Check::Directory => if status.is_dir {
                r matches Output::Literal(s) && s@ == p@
            } else {
                r matches Output::Fail(m) && m@ == msg_not_directory(p@)
            },
            Check::NotDirectory => if status.exists && !status.is_dir {
                r matches Output::Literal(s) && s@ == p@
            } else if status.exists {
                r matches Output::Fail(m) && m@ == msg_is_directory(p@)
            } else {
                r matches Output::Fail(m) && m@ == msg_not_exist(p@)
            },
            Check::RegularFile => if status.is_file {
                r matches Output::Literal(s) && s@ == p@
            } else {
                r matches Output::Fail(m) && m@ == msg_not_file(p@)
            },
        },
{
    match check {
        Check::Exists => {
            if status.exists {
                output_path(p)
            } else {
                compile_error_not_exist(p)
            }
        },
        Check::Directory => {
            if status.is_dir {
                output_path(p)
            } else {
                compile_error_not_directory(p)
            }
        },
        Check::NotDirectory => {
            if status.exists && !status.is_dir {
                output_path(p)
            } else {
                compile_error_directory(p, status.exists)
            }
        },
        Check::RegularFile => {
            if status.is_file {
                output_path(p)
            } else {
                compile_error_not_file(p)
            }
        },
    }
}

/// Accepts an absolute or a relative path; a relative one resolves against
/// the root. Yields the resolved path as a literal.
pub fn path(root: &str, input: &Vec<Token>) -> (r: Output)
    ensures
        match parse_spec(token_views(input@), false) {
            Option::Some(pr) => (r matches Output::Literal(s) && s@ == resolved_spec(
                root@,
                join_all(pr.0),
            )),
            Option::None => (r matches Output::Fail(m) && m@ == msg_parse()),
        },
{
    match parse_input(input, false) {
        Option::None => parse_failure(),
        Option::Some(pr) => {
            let joined = join_segments(&pr.segments);
            let resolved = resolve_against(root, joined.as_str());
            output_path(resolved.as_str())
        },
    }
}

/// As [`path`], and the resolved path must exist.
pub fn exist_path(root: &str, input: &Vec<Token>) -> (r: Step)
    ensures
        inspect_outcome_any(root@, token_views(input@), Check::Exists, r),
{
    inspect_any(root, input, Check::Exists)
}

/// As [`path`], and the resolved path must be a directory.
pub fn directory_path(root: &str, input: &Vec<Token>) -> (r: Step)
    ensures
        inspect_outcome_any(root@, token_views(input@), Check::Directory, r),
{
    inspect_any(root, input, Check::Directory)
}

/// As [`path`], and the resolved path must exist and not be a directory.
pub fn not_directory_path(root: &str, input: &Vec<Token>) -> (r: Step)
    ensures
        inspect_outcome_any(root@, token_views(input@), Check::NotDirectory, r),
{
    inspect_any(root, input, Check::NotDirectory)
}

/// As [`path`], and the resolved path must be a regular file.
pub fn file_path(root: &str, input: &Vec<Token>) -> (r: Step)
    ensures
        inspect_outcome_any(root@, token_views(input@), Check::RegularFile, r),
{
    inspect_any(root, input, Check::RegularFile)
}

/// Requires a relative path and resolves it against the root.
pub fn relative_path(root: &str, input: &Vec<Token>) -> (r: Output)
    ensures
        match parse_spec(token_views(input@), false) {
            Option::Some(pr) => {
                let joined = join_all(pr.0);
                if is_absolute_spec(joined) {
                    r matches Output::Fail(m) && m@ == msg_not_relative(joined)
                } else {
                    r matches Output::Literal(s) && s@ == join_one(root@, joined)
                }
            },
            Option::None => (r matches Output::Fail(m) && m@ == msg_parse()),
        },
{
    match parse_input(input, false) {
        Option::None => parse_failure(),
        Option::Some(pr) => {
            let joined = join_segments(&pr.segments);
            if is_absolute(joined.as_str()) {
                compile_error_not_relative(joined.as_str())
            } else {
                let mut acc = root.to_owned();
                join_push(&mut acc, joined.as_str());
                output_path(acc.as_str())
            }
        },
    }
}

/// As [`relative_path`], and the resolved path must exist.
pub fn exist_relative_path(root: &str, input: &Vec<Token>) -> (r: Step)
    ensures
        inspect_outcome_relative(root@, token_views(input@), Check::Exists, r),
{
    inspect_relative(root, input, Check::Exists)
}

/// As [`relative_path`], and the resolved path must be a directory.
pub fn directory_relative_path(root: &str, input: &Vec<Token>) -> (r: Step)
    ensures
        inspect_outcome_relative(root@, token_views(input@), Check::Directory, r),
{
    inspect_relative(root, input, Check::Directory)
}

/// As [`relative_path`], and the resolved path must exist and not be a
/// directory.
pub fn not_directory_relative_path(root: &str, input: &Vec<Token>) -> (r: Step)
    ensures
        inspect_outcome_relative(root@, token_views(input@), Check::NotDirectory, r),
{
    inspect_relative(root, input, Check::NotDirectory)
}

/// As [`relative_path`], and the resolved path must be a regular file.
pub fn file_relative_path(root: &str, input: &Vec<Token>) -> (r: Step)
    ensures
        inspect_outcome_relative(root@, token_views(input@), Check::RegularFile, r),
{
    inspect_relative(root, input, Check::RegularFile)
}

/// Requires an absolute path and keeps it unchanged.
pub fn absolute_path(input: &Vec<Token>) -> (r: Output)
    ensures
        match parse_spec(token_views(input@), false) {
            Option::Some(pr) => {
                let joined = join_all(pr.0);
                if is_absolute_spec(joined) {
                    r matches Output::Literal(s) && s@ == joined
                } else {
                    r matches Output::Fail(m) && m@ == msg_not_absolute(joined)
                }
            },
            Option::None => (r matches Output::Fail(m) && m@ == msg_parse()),
        },
{
    match parse_input(input, false) {
        Option::None => parse_failure(),
        Option::Some(pr) => {
            let joined = join_segments(&pr.segments);
            if is_absolute(joined.as_str()) {
                output_path(joined.as_str())
            } else {
                compile_error_not_absolute(joined.as_str())
            }
        },
    }
}

/// As [`absolute_path`], and the path must exist.
pub fn exist_absolute_path(input: &Vec<Token>) -> (r: Step)
    ensures
        inspect_outcome_absolute(token_views(input@), Check::Exists, r),
{
    inspect_absolute(input, Check::Exists)
}

/// As [`absolute_path`], and the path must be a directory.
pub fn directory_absolute_path(input: &Vec<Token>) -> (r: Step)
    ensures
        inspect_outcome_absolute(token_views(input@), Check::Directory, r),
{
    inspect_absolute(input, Check::Directory)
}

/// As [`absolute_path`], and the path must exist and not be a directory.
pub fn not_directory_absolute_path(input: &Vec<Token>) -> (r: Step)
    ensures
        inspect_outcome_absolute(token_views(input@), Check::NotDirectory, r),
{
    inspect_absolute(input, Check::NotDirectory)
}

/// As [`absolute_path`], and the path must be a regular file.
pub fn file_absolute_path(input: &Vec<Token>) -> (r: Step)
    ensures
        inspect_outcome_absolute(token_views(input@), Check::RegularFile, r),
{
    inspect_absolute(input, Check::RegularFile)
}

/// The file name of the path value, as a literal; when there is none, the
/// default expression when one was given, a diagnostic otherwise.
pub fn get_file_name(input: &Vec<Token>) -> (r: Output)
    ensures
        match parse_spec(token_views(input@), true) {
            Option::Some(pr) => {
                let joined = join_all(pr.0);
                match file_name_spec(joined) {
                    Option::Some(n) => r matches Output::Literal(s) && s@ == n,
                    Option::None => match pr.1 {
                        Option::Some(dv) => r matches Output::Splice(ts) && token_views(ts@) == dv,
                        Option::None => r matches Output::Fail(m) && m@ == msg_no_file_name(joined),
                    },
                }
            },
            Option::None => (r matches Output::Fail(m) && m@ == msg_parse()),
        },
{
    match parse_input(input, true) {
        Option::None => parse_failure(),
        Option::Some(pr) => {
            let joined = join_segments(&pr.segments);
            match file_name_of(joined.as_str()) {
                Option::Some(n) => output_path(n.as_str()),
                Option::None => match pr.default_value {
                    Option::Some(dv) => output_expr(dv),
                    Option::None => compile_error_no_file_name(joined.as_str()),
                },
            }
        },
    }
}

/// The file stem of the path value, as a literal; when there is none, the
/// default expression when one was given, a diagnostic otherwise.
pub fn get_file_stem(input: &Vec<Token>) -> (r: Output)
    ensures
        match parse_spec(token_views(input@), true) {
            Option::Some(pr) => {
                let joined = join_all(pr.0);
                match file_stem_spec(joined) {
                    Option::Some(n) => r matches Output::Literal(s) && s@ == n,
                    Option::None => match pr.1 {
                        Option::Some(dv) => r matches Output::Splice(ts) && token_views(ts@) == dv,
                        Option::None => r matches Output::Fail(m) && m@ == msg_no_file_stem(joined),
                    },
                }
            },
            Option::None => (r matches Output::Fail(m) && m@ == msg_parse()),
        },
{
    match parse_input(input, true) {
        Option::None => parse_failure(),
        Option::Some(pr) => {
            let joined = join_segments(&pr.segments);
            match file_stem_of(joined.as_str()) {
                Option::Some(n) => output_path(n.as_str()),
                Option::None => match pr.default_value {
                    Option::Some(dv) => output_expr(dv),
                    Option::None => compile_error_no_file_stem(joined.as_str()),
                },
            }
        },
    }
}

/// The extension of the path value, as a literal; when there is none, the
/// default expression when one was given, a diagnostic otherwise.
pub fn get_extension(input: &Vec<Token>) -> (r: Output)
    ensures
        match parse_spec(token_views(input@), true) {
            Option::Some(pr) => {
                let joined = join_all(pr.0);
                match extension_spec(joined) {
                    Option::Some(n) => r matches Output::Literal(s) && s@ == n,
                    Option::None => match pr.1 {
                        Option::Some(dv) => r matches Output::Splice(ts) && token_views(ts@) == dv,
                        Option::None => r matches Output::Fail(m) && m@ == msg_no_extension(joined),
                    },
                }
            },
            Option::None => (r matches Output::Fail(m) && m@ == msg_parse()),
        },
{
    match parse_input(input, true) {
        Option::None => parse_failure(),
        Option::Some(pr) => {
            let joined = join_segments(&pr.segments);
            match extension_of(joined.as_str()) {
                Option::Some(n) => output_path(n.as_str()),
                Option::None => match pr.default_value {
                    Option::Some(dv) => output_expr(dv),
                    Option::None => compile_error_no_extension(joined.as_str()),
                },
            }
        },
    }
}

/// The parent of the path value, as a literal; when there is none, the
/// default expression when one was given, a diagnostic otherwise.
pub fn get_parent(input: &Vec<Token>) -> (r: Output)
    ensures
        match parse_spec(token_views(input@), true) {
            Option::Some(pr) => {
                let joined = join_all(pr.0);
                match parent_spec(joined) {
                    Option::Some(n) => r matches Output::Literal(s) && s@ == n,
                    Option::None => match pr.1 {
                        Option::Some(dv) => r matches Output::Splice(ts) && token_views(ts@) == dv,
                        Option::None => r matches Output::Fail(m) && m@ == msg_no_parent(joined),
                    },
                }
            },
            Option::None => (r matches Output::Fail(m) && m@ == msg_parse()),
        },
{
    match parse_input(input, true) {
        Option::None => parse_failure(),
        Option::Some(pr) => {
            let joined = join_segments(&pr.segments);
            match parent_of(joined.as_str()) {
                Option::Some(n) => output_path(n.as_str()),
                Option::None => match pr.default_value {
                    Option::Some(dv) => output_expr(dv),
                    Option::None => compile_error_no_parent(joined.as_str()),
                },
            }
        },
    }
}

/// The media type looked up from the extension of the path value, as a
/// literal; when the path has no extension or the lookup knows none, the
/// default expression when one was given, a diagnostic otherwise. A failed
/// lookup never yields an empty literal: without a fallback it is an error,
/// by design.
pub fn mime_guess(input: &Vec<Token>) -> (r: Output)
    ensures
        match parse_spec(token_views(input@), true) {
            Option::Some(pr) => {
                let joined = join_all(pr.0);
                let guess = match extension_spec(joined) {
                    Option::Some(e) => mime_first_of(e),
                    Option::None => Option::None,
                };
                match guess {
                    Option::Some(mm) => r matches Output::Literal(s) && s@ == mm,
                    Option::None => match pr.1 {
                        Option::Some(dv) => r matches Output::Splice(ts) && token_views(ts@) == dv,
                        Option::None => r matches Output::Fail(m) && m@ == msg_no_mime(joined),
                    },
                }
            },
            Option::None => (r matches Output::Fail(m) && m@ == msg_parse()),
        },
{
    match parse_input(input, true) {
        Option::None => parse_failure(),
        Option::Some(pr) => {
            let joined = join_segments(&pr.segments);
            let guess = match extension_of(joined.as_str()) {
                Option::Some(e) => mime_lookup(e.as_str()),
                Option::None => Option::None,
            };
            match guess {
                Option::Some(mm) => output_path(mm.as_str()),
                Option::None => match pr.default_value {
                    Option::Some(dv) => output_expr(dv),
                    Option::None => compile_error_no_mime(joined.as_str()),
                },
            }
        },
    }
}

} // verus!
