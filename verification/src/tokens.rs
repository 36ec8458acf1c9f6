//! The token model of a macro invocation's input.
//!
//! A macro argument list is a tree: leaves are string literals, identifiers,
//! punctuation and other atoms; a parenthesised (or otherwise delimited)
//! group holds a nested list of tokens. The parser consumes this tree; the
//! host front end only has to convert its own token representation into
//! [`Token`] values and back.

use vstd::prelude::*;

verus! {

/// The delimiter of a token group.
#[derive(Clone, Copy, PartialEq, Eq, Structural)]
pub enum Delim {
    /// `( ... )`
    Paren,
    /// `[ ... ]`
    Bracket,
    /// `{ ... }`
    Brace,
    /// An invisible grouping introduced by macro expansion.
    Invisible,
}

/// One token of the macro input.
pub enum Token {
    /// A string literal, carrying its decoded value (not its source text).
    LitStr(String),
    /// An identifier, such as `default`.
    Ident(String),
    /// A single punctuation character, such as `,` or `=`.
    Punct(char),
    /// A delimited group holding nested tokens.
    Group(Delim, Vec<Token>),
    /// Any other atom (a non-string literal, a lifetime, ...), carried as
    /// raw text so that it can be spliced back out unchanged.
    Other(String),
}

/// The mathematical shape of a [`Token`]: the same tree with every string
/// replaced by its character sequence.
pub enum SpecToken {
    LitStr(Seq<char>),
    Ident(Seq<char>),
    Punct(char),
    Group(Delim, Seq<SpecToken>),
    Other(Seq<char>),
}

impl View for Token {
    type V = SpecToken;

    open spec fn view(&self) -> SpecToken
        decreases self,
    {
        match self {
            Token::LitStr(s) => SpecToken::LitStr(s@),
            Token::Ident(s) => SpecToken::Ident(s@),
            Token::Punct(c) => SpecToken::Punct(*c),
            Token::Group(d, ts) => SpecToken::Group(*d, token_views(ts@)),
            Token::Other(s) => SpecToken::Other(s@),
        }
    }
}

/// The views of a token list, element by element.
pub open spec fn token_views(ts: Seq<Token>) -> Seq<SpecToken>
    decreases ts,
{
    if ts.len() == 0 {
        Seq::empty()
    } else {
        token_views(ts.drop_last()).push(ts.last()@)
    }
}

/// `token_views` maps the view over the list, index by index.
pub broadcast proof fn lemma_token_views_index(ts: Seq<Token>)
    ensures
        (#[trigger] token_views(ts)).len() == ts.len(),
        forall|i: int| 0 <= i < ts.len() ==> token_views(ts)[i] == ts[i]@,
    decreases ts,
{
    if ts.len() > 0 {
        lemma_token_views_index(ts.drop_last());
        assert(token_views(ts) == token_views(ts.drop_last()).push(ts.last()@));
        assert forall|i: int| 0 <= i < ts.len() implies token_views(ts)[i] == ts[i]@ by {
            if i < ts.len() - 1 {
                assert(token_views(ts.drop_last()).push(ts.last()@)[i] == token_views(
                    ts.drop_last(),
                )[i]);
                assert(ts.drop_last()[i] == ts[i]);
            } else {
                assert(token_views(ts.drop_last()).push(ts.last()@)[i] == ts.last()@);
            }
        }
    }
}

impl DeepView for Token {
    type V = SpecToken;

    open spec fn deep_view(&self) -> SpecToken {
        self@
    }
}

impl Token {
    /// An exact copy of the token, value for value.
    pub fn duplicate(&self) -> (r: Token)
        ensures
            r@ == self@,
        decreases self,
    {
        match self {
            Token::LitStr(s) => Token::LitStr(s.clone()),
            Token::Ident(s) => Token::Ident(s.clone()),
            Token::Punct(c) => Token::Punct(*c),
            Token::Group(d, ts) => {
                let copy = duplicate_all(ts);
                proof {
                    lemma_token_views_index(copy@);
                    lemma_token_views_index(ts@);
                    assert(token_views(copy@) =~= token_views(ts@));
                }
                Token::Group(*d, copy)
            },
            Token::Other(s) => Token::Other(s.clone()),
        }
    }
}

/// An exact copy of a token list, element for element.
pub fn duplicate_all(ts: &Vec<Token>) -> (r: Vec<Token>)
    ensures
        r@.len() == ts@.len(),
        forall|i: int| 0 <= i < ts@.len() ==> r@[i]@ == ts@[i]@,
    decreases ts,
{
    let mut out: Vec<Token> = Vec::new();
    let mut k: usize = 0;
    while k < ts.len()
        invariant
            k <= ts@.len(),
            out@.len() == k,
            forall|i: int| 0 <= i < k ==> out@[i]@ == ts@[i]@,
        decreases ts@.len() - k,
    {
        let t = ts[k].duplicate();
        out.push(t);
        k = k + 1;
    }
    out
}

} // verus!
