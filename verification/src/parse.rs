//! The argument grammar of the macro surface.
//!
//! An invocation's input is a comma-separated list of argument expressions,
//! each of which is either a string literal or a parenthesised tuple of
//! further argument expressions, nested to any depth. The leaves are
//! flattened depth-first, left to right, into path segments. A trailing
//! comma is allowed; an empty input is not.
//!
//! Some operations also accept a `default = <expr>,` prefix: the expression
//! is every token up to the first comma at the top nesting level, kept
//! unevaluated so that it can be spliced into the output when the primary
//! computation has nothing to yield.

use vstd::prelude::*;

use crate::paths::{join_all, join_segments, lemma_str_views_snoc, str_views};
use crate::tokens::{lemma_token_views_index, token_views, Delim, SpecToken, Token};

verus! {

/// The path segments that one argument expression contributes, depth-first
/// and left to right; `None` when the expression is not a string literal
/// nor a tuple of such.
pub open spec fn expr_leaves(t: SpecToken) -> Option<Seq<Seq<char>>>
    decreases t, 0int,
{
    match t {
        SpecToken::LitStr(s) => Some(seq![s]),
        SpecToken::Group(d, inner) => {
            if d == Delim::Paren {
                list_leaves_from(inner, 0)
            } else if d == Delim::Invisible {
                if inner.len() == 1 {
                    expr_leaves(inner[0])
                } else {
                    None
                }
            } else {
                None
            }
        },
        _ => None,
    }
}

/// The segments contributed by the comma-separated argument expressions of
/// `ts` from position `i` on: each element is a single expression token,
/// elements are separated by commas, and a trailing comma is allowed.
pub open spec fn list_leaves_from(ts: Seq<SpecToken>, i: int) -> Option<Seq<Seq<char>>>
    decreases ts, ts.len() - i,
{
    if i == ts.len() {
        Some(Seq::empty())
    } else if !(0 <= i < ts.len()) {
        None
    } else {
        match expr_leaves(ts[i]) {
            None => None,
            Some(l) => {
                if i + 1 == ts.len() {
                    Some(l)
                } else if ts[i + 1] matches SpecToken::Punct(c) && c == ',' {
                    match list_leaves_from(ts, i + 2) {
                        None => None,
                        Some(rest) => Some(l + rest),
                    }
                } else {
                    None
                }
            },
        }
    }
}

/// The least position at or after `i` holding a comma at the top nesting
/// level, or the input's length when there is none.
pub open spec fn first_comma(ts: Seq<SpecToken>, i: int) -> int
    decreases ts.len() - i,
{
    if i < 0 || i >= ts.len() {
        ts.len() as int
    } else if ts[i] matches SpecToken::Punct(c) && c == ',' {
        i
    } else {
        first_comma(ts, i + 1)
    }
}

/// What parsing a whole invocation's input yields: the path segments and,
/// when a `default = <expr>,` prefix is present and allowed, the tokens of
/// that expression. `None` is a parse failure: empty input, a missing `=`
/// or separating comma after `default`, an empty default expression, or an
/// argument that is not a string literal nor a tuple of string literals.
pub open spec fn parse_spec(ts: Seq<SpecToken>, allow_default: bool) -> Option<
    (Seq<Seq<char>>, Option<Seq<SpecToken>>),
> {
    if ts.len() == 0 {
        None
    } else if allow_default && (ts[0] matches SpecToken::Ident(s) && s == "default"@) {
        if ts.len() >= 2 && (ts[1] matches SpecToken::Punct(c) && c == '=') {
            let k = first_comma(ts, 2);
            if k == ts.len() || k == 2 {
                None
            } else {
                match list_leaves_from(ts, k + 1) {
                    None => None,
                    Some(segs) => Some((segs, Some(ts.subrange(2, k)))),
                }
            }
        } else {
            None
        }
    } else {
        match list_leaves_from(ts, 0) {
            None => None,
            Some(segs) => Some((segs, None)),
        }
    }
}

/// String-literal tokens for the given segments, one per segment and
/// separated by commas: the flat tuple holding exactly those leaves.
pub open spec fn lits_commas(ss: Seq<Seq<char>>) -> Seq<SpecToken>
    decreases ss.len(),
{
    if ss.len() == 0 {
        Seq::empty()
    } else if ss.len() == 1 {
        seq![SpecToken::LitStr(ss[0])]
    } else {
        seq![SpecToken::LitStr(ss[0]), SpecToken::Punct(',')] + lits_commas(ss.drop_first())
    }
}

proof fn lemma_lits_commas_len(ss: Seq<Seq<char>>)
    ensures
        ss.len() == 0 ==> lits_commas(ss).len() == 0,
        ss.len() > 0 ==> lits_commas(ss).len() == 2 * ss.len() - 1,
    decreases ss.len(),
{
    if ss.len() >= 2 {
        lemma_lits_commas_len(ss.drop_first());
    }
}

/// A flat, comma-separated run of string literals flattens to exactly its
/// own segments, wherever in the input it starts.
proof fn lemma_lits_commas_leaves(ss: Seq<Seq<char>>, ts: Seq<SpecToken>, i: int)
    requires
        0 <= i <= ts.len(),
        ts.subrange(i, ts.len() as int) == lits_commas(ss),
    ensures
        list_leaves_from(ts, i) == Some(ss),
    decreases ss.len(),
{
    let sub = ts.subrange(i, ts.len() as int);
    lemma_lits_commas_len(ss);
    if ss.len() == 0 {
        assert(i == ts.len());
        assert(Seq::<Seq<char>>::empty() =~= ss);
    } else if ss.len() == 1 {
        assert(ts[i] == sub[0]);
        assert(sub[0] == SpecToken::LitStr(ss[0]));
        assert(expr_leaves(ts[i]) == Some(seq![ss[0]]));
        assert(i + 1 == ts.len());
        assert(seq![ss[0]] =~= ss);
    } else {
        lemma_lits_commas_len(ss.drop_first());
        assert(sub[0] == SpecToken::LitStr(ss[0]));
        assert(sub[1] == SpecToken::Punct(','));
        assert(ts[i] == sub[0]);
        assert(ts[i + 1] == sub[1]);
        assert(expr_leaves(ts[i]) == Some(seq![ss[0]]));
        let rest = lits_commas(ss.drop_first());
        assert forall|j: int| 0 <= j < rest.len() implies ts.subrange(i + 2, ts.len() as int)[j]
            == rest[j] by {
            assert(ts.subrange(i + 2, ts.len() as int)[j] == ts[i + 2 + j]);
            assert(ts[i + 2 + j] == sub[2 + j]);
            assert(sub[2 + j] == lits_commas(ss)[2 + j]);
            assert(lits_commas(ss)[2 + j] == rest[j]);
        }
        assert(ts.subrange(i + 2, ts.len() as int) =~= rest);
        lemma_lits_commas_leaves(ss.drop_first(), ts, i + 2);
        assert(i + 1 < ts.len());
        assert(list_leaves_from(ts, i) == Some(seq![ss[0]] + ss.drop_first()));
        assert(seq![ss[0]] + ss.drop_first() =~= ss);
    }
}

/// A flat, comma-separated sequence of string literals, with no tuple
/// nesting, parses to exactly those literals as segments, in order — so the
/// path value of such an input is the iterative join of the literals.
pub proof fn lemma_flat_literals_parse(ss: Seq<Seq<char>>)
    requires
        ss.len() > 0,
    ensures
        parse_spec(lits_commas(ss), false) matches Some(pr) && pr.0 == ss && pr.1 is None,
{
    lemma_lits_commas_len(ss);
    assert(lits_commas(ss).subrange(0, lits_commas(ss).len() as int) =~= lits_commas(ss));
    lemma_lits_commas_leaves(ss, lits_commas(ss), 0);
}

/// Flattening is depth-first, left to right, and idempotent: building the
/// flat tuple of an expression's leaves and flattening that tuple again
/// yields the same leaves.
pub proof fn lemma_flatten_idempotent(t: SpecToken)
    requires
        expr_leaves(t) is Some,
    ensures
        expr_leaves(SpecToken::Group(Delim::Paren, lits_commas(expr_leaves(t).unwrap())))
            == expr_leaves(t),
{
    let ss = expr_leaves(t).unwrap();
    assert(lits_commas(ss).subrange(0, lits_commas(ss).len() as int) =~= lits_commas(ss));
    lemma_lits_commas_leaves(ss, lits_commas(ss), 0);
}

/// Whether two strings hold the same characters.
pub fn str_eq(a: &str, b: &str) -> (r: bool)
    ensures
        r == (a@ == b@),
{
    let na = a.unicode_len();
    let nb = b.unicode_len();
    if na != nb {
        return false;
    }
    let mut i: usize = 0;
    while i < na
        invariant
            na == a@.len(),
            na == b@.len(),
            i <= na,
            forall|j: int| 0 <= j < i ==> a@[j] == b@[j],
        decreases na - i,
    {
        if a.get_char(i) != b.get_char(i) {
            return false;
        }
        i = i + 1;
    }
    proof {
        assert(a@ =~= b@);
    }
    true
}

/// The segments of one argument expression, appended to `out`.
fn expr_leaves_exec(t: &Token, out: &mut Vec<String>) -> (ok: bool)
    ensures
        ok <==> expr_leaves(t@) is Some,
        ok ==> (expr_leaves(t@) matches Some(l) && str_views(final(out)@) == str_views(old(out)@) + l),
    decreases t, 0int,
{
    match t {
        Token::LitStr(s) => {
            let seg = s.clone();
            let ghost pushed = seg;
            out.push(seg);
            proof {
                lemma_str_views_snoc(old(out)@, pushed);
                assert(str_views(out@) =~= str_views(old(out)@) + seq![s@]);
            }
            true
        },
        Token::Group(d, inner) => {
            match d {
                Delim::Paren => list_leaves_exec(inner, 0, out),
                Delim::Invisible => {
                    proof {
                        lemma_token_views_index(inner@);
                    }
                    if inner.len() == 1 {
                        expr_leaves_exec(&inner[0], out)
                    } else {
                        false
                    }
                },
                _ => false,
            }
        },
        _ => false,
    }
}

/// The segments of a comma-separated argument list from `from` on,
/// appended to `out`.
fn list_leaves_exec(ts: &Vec<Token>, from: usize, out: &mut Vec<String>) -> (ok: bool)
    requires
        from <= ts@.len(),
    ensures
        ok <==> list_leaves_from(token_views(ts@), from as int) is Some,
        ok ==> (list_leaves_from(token_views(ts@), from as int) matches Some(l) && str_views(final(out)@)
            == str_views(old(out)@) + l),
    decreases ts, ts@.len() - from,
{
    proof {
        lemma_token_views_index(ts@);
    }
    let n = ts.len();
    if from == n {
        proof {
            assert(str_views(out@) =~= str_views(out@) + Seq::<Seq<char>>::empty());
        }
        return true;
    }
    let ok1 = expr_leaves_exec(&ts[from], out);
    if !ok1 {
        return false;
    }
    if from + 1 == n {
        return true;
    }
    let is_comma = match &ts[from + 1] {
        Token::Punct(c) => *c == ',',
        _ => false,
    };
    if !is_comma {
        return false;
    }
    let ok2 = list_leaves_exec(ts, from + 2, out);
    if !ok2 {
        return false;
    }
    proof {
        let tvs = token_views(ts@);
        let l1 = expr_leaves(tvs[from as int]).unwrap();
        let l2 = list_leaves_from(tvs, from + 2).unwrap();
        assert(str_views(out@) =~= str_views(old(out)@) + (l1 + l2));
    }
    true
}

/// The least position at or after `i` holding a top-level comma, or the
/// input's length.
fn first_comma_exec(ts: &Vec<Token>, i: usize) -> (k: usize)
    requires
        i <= ts@.len(),
    ensures
        i <= k <= ts@.len(),
        k as int == first_comma(token_views(ts@), i as int),
    decreases ts@.len() - i,
{
    proof {
        lemma_token_views_index(ts@);
    }
    if i == ts.len() {
        return i;
    }
    let is_comma = match &ts[i] {
        Token::Punct(c) => *c == ',',
        _ => false,
    };
    if is_comma {
        i
    } else {
        first_comma_exec(ts, i + 1)
    }
}

/// Exact copies of the tokens in positions `from .. to`.
fn duplicate_range(ts: &Vec<Token>, from: usize, to: usize) -> (r: Vec<Token>)
    requires
        from <= to <= ts@.len(),
    ensures
        token_views(r@) == token_views(ts@).subrange(from as int, to as int),
{
    proof {
        lemma_token_views_index(ts@);
    }
    let mut out: Vec<Token> = Vec::new();
    let mut k: usize = from;
    while k < to
        invariant
            from <= k <= to <= ts@.len(),
            out@.len() == k - from,
            forall|i: int| 0 <= i < out@.len() ==> out@[i]@ == ts@[from + i]@,
        decreases to - k,
    {
        let t = ts[k].duplicate();
        out.push(t);
        k = k + 1;
    }
    proof {
        lemma_token_views_index(out@);
        lemma_token_views_index(ts@);
        assert(token_views(out@) =~= token_views(ts@).subrange(from as int, to as int));
    }
    out
}

/// A parsed invocation: the path segments, in order, and the tokens of the
/// `default = <expr>,` prefix when one was given.
pub struct Parsed {
    pub segments: Vec<String>,
    pub default_value: Option<Vec<Token>>,
}

/// Parses an invocation's input. `None` is a parse failure, exactly when
/// [`parse_spec`] says so.
pub fn parse_input(tokens: &Vec<Token>, allow_default: bool) -> (r: Option<Parsed>)
    ensures
        r is Some <==> parse_spec(token_views(tokens@), allow_default) is Some,
        r matches Some(p) ==> (parse_spec(token_views(tokens@), allow_default) matches Some(sp)
            && str_views(p.segments@) == sp.0 && (p.default_value is Some <==> sp.1 is Some) && (
        p.default_value matches Some(dv) ==> sp.1 matches Some(sdv) && token_views(dv@) == sdv)),
{
    proof {
        lemma_token_views_index(tokens@);
    }
    let n = tokens.len();
    if n == 0 {
        return None;
    }
    let has_default_prefix = allow_default && match &tokens[0] {
        Token::Ident(s) => str_eq(s.as_str(), "default"),
        _ => false,
    };
    if has_default_prefix {
        if n < 2 {
            return None;
        }
        let is_eq = match &tokens[1] {
            Token::Punct(c) => *c == '=',
            _ => false,
        };
        if !is_eq {
            return None;
        }
        let k = first_comma_exec(tokens, 2);
        if k == n || k == 2 {
            return None;
        }
        let dv = duplicate_range(tokens, 2, k);
        let mut segments: Vec<String> = Vec::new();
        let ok = list_leaves_exec(tokens, k + 1, &mut segments);
        if !ok {
            return None;
        }
        proof {
            assert(str_views(Seq::<String>::empty()) == Seq::<Seq<char>>::empty());
            assert(str_views(segments@) =~= list_leaves_from(
                token_views(tokens@),
                k + 1,
            ).unwrap());
        }
        Some(Parsed { segments, default_value: Some(dv) })
    } else {
        let mut segments: Vec<String> = Vec::new();
        let ok = list_leaves_exec(tokens, 0, &mut segments);
        if !ok {
            return None;
        }
        proof {
            assert(str_views(Seq::<String>::empty()) == Seq::<Seq<char>>::empty());
            assert(str_views(segments@) =~= list_leaves_from(token_views(tokens@), 0).unwrap());
        }
        Some(Parsed { segments, default_value: None })
    }
}

/// An invocation parsed without a fallback: its path value, already joined.
pub struct JoinBuilder(pub String);

/// As [`JoinBuilder`]. The name records that no separator rewriting is
/// applied; with `/` as the separator none ever is, so the two parse alike.
pub struct JoinBuilderNoBeautify(pub String);

/// An invocation parsed with an optional `default = <expr>,` prefix: its
/// path value and the default expression's tokens, when one was given.
pub struct JoinBuilderWithDefaultValue(pub String, pub Option<Vec<Token>>);

/// As [`JoinBuilderWithDefaultValue`], without separator rewriting.
pub struct JoinBuilderNoBeautifyWithDefaultValue(pub String, pub Option<Vec<Token>>);

impl JoinBuilder {
    /// Parses an invocation without a fallback into its path value.
    pub fn parse(input: &Vec<Token>) -> (r: Option<JoinBuilder>)
        ensures
            r is Some <==> parse_spec(token_views(input@), false) is Some,
            r matches Some(jb) ==> (parse_spec(token_views(input@), false) matches Some(sp)
                && jb.0@ == join_all(sp.0)),
    {
        match parse_input(input, false) {
            Option::None => None,
            Option::Some(pr) => Some(JoinBuilder(join_segments(&pr.segments))),
        }
    }
}

impl JoinBuilderNoBeautify {
    /// Parses an invocation without a fallback into its path value.
    pub fn parse(input: &Vec<Token>) -> (r: Option<JoinBuilderNoBeautify>)
        ensures
            r is Some <==> parse_spec(token_views(input@), false) is Some,
            r matches Some(jb) ==> (parse_spec(token_views(input@), false) matches Some(sp)
                && jb.0@ == join_all(sp.0)),
    {
        match parse_input(input, false) {
            Option::None => None,
            Option::Some(pr) => Some(JoinBuilderNoBeautify(join_segments(&pr.segments))),
        }
    }
}

impl JoinBuilderWithDefaultValue {
    /// Parses an invocation that may carry a `default = <expr>,` prefix.
    pub fn parse(input: &Vec<Token>) -> (r: Option<JoinBuilderWithDefaultValue>)
        ensures
            r is Some <==> parse_spec(token_views(input@), true) is Some,
            r matches Some(jb) ==> (parse_spec(token_views(input@), true) matches Some(sp)
                && jb.0@ == join_all(sp.0) && (jb.1 is Some <==> sp.1 is Some) && (
            jb.1 matches Some(dv) ==> sp.1 matches Some(sdv) && token_views(dv@) == sdv)),
    {
        match parse_input(input, true) {
            Option::None => None,
            Option::Some(pr) => {
                let joined = join_segments(&pr.segments);
                Some(JoinBuilderWithDefaultValue(joined, pr.default_value))
            },
        }
    }
}

impl JoinBuilderNoBeautifyWithDefaultValue {
    /// Parses an invocation that may carry a `default = <expr>,` prefix.
    pub fn parse(input: &Vec<Token>) -> (r: Option<JoinBuilderNoBeautifyWithDefaultValue>)
        ensures
            r is Some <==> parse_spec(token_views(input@), true) is Some,
            r matches Some(jb) ==> (parse_spec(token_views(input@), true) matches Some(sp)
                && jb.0@ == join_all(sp.0) && (jb.1 is Some <==> sp.1 is Some) && (
            jb.1 matches Some(dv) ==> sp.1 matches Some(sdv) && token_views(dv@) == sdv)),
    {
        match parse_input(input, true) {
            Option::None => None,
            Option::Some(pr) => {
                let joined = join_segments(&pr.segments);
                Some(JoinBuilderNoBeautifyWithDefaultValue(joined, pr.default_value))
            },
        }
    }
}

impl From<JoinBuilder> for String {
    /// The path value that the builder holds.
    fn from(jb: JoinBuilder) -> (r: String) {
        jb.0
    }
}

impl vstd::std_specs::convert::FromSpecImpl<JoinBuilder> for String {
    open spec fn obeys_from_spec() -> bool {
        true
    }

    open spec fn from_spec(jb: JoinBuilder) -> String {
        jb.0
    }
}

impl From<JoinBuilderNoBeautify> for String {
    /// The path value that the builder holds.
    fn from(jb: JoinBuilderNoBeautify) -> (r: String) {
        jb.0
    }
}

impl vstd::std_specs::convert::FromSpecImpl<JoinBuilderNoBeautify> for String {
    open spec fn obeys_from_spec() -> bool {
        true
    }

    open spec fn from_spec(jb: JoinBuilderNoBeautify) -> String {
        jb.0
    }
}

} // verus!
