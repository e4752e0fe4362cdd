use vstd::prelude::*;

verus! {

/// The bracket kind of a delimited group.
#[derive(Clone, Copy, PartialEq, Eq, Debug)]
pub enum Delimiter {
    Parenthesis,
    Brace,
    Bracket,
    Invisible,
}

/// One token tree of the template input. A group is a single token: what it
/// encloses never takes part in the attribute grammar at this level.
#[derive(Debug)]
pub enum TokenTree {
    Ident(String),
    Punct(char),
    Literal(String),
    Group(Delimiter, Vec<TokenTree>),
}

/// A half-open range `[start, end)` of token positions.
#[derive(Clone, Copy, PartialEq, Eq, Debug)]
pub struct TokenRange {
    pub start: usize,
    pub end: usize,
}

pub open spec fn is_punct(t: TokenTree, c: char) -> bool {
    t is Punct && t->Punct_0 == c
}

pub open spec fn ident_text(t: TokenTree) -> Seq<char> {
    match t {
        TokenTree::Ident(s) => s@,
        _ => Seq::empty(),
    }
}

/// Whether `s` is an identifier that is neither a Rust keyword nor `_`.
pub uninterp spec fn is_plain_ident(s: Seq<char>) -> bool;

/// Relies on syn's `Ident` parser, reached through `syn::parse_str`: it takes
/// one identifier that is not a keyword and refuses anything else; the answer
/// depends on the text alone.
#[verifier::external_body]
fn accepts_plain_ident(s: &str) -> (r: bool)
    ensures
        r == is_plain_ident(s@),
{
    syn::parse_str::<syn::Ident>(s).is_ok()
}

/// Whether the token at `i`, below the bound `hi`, is the punctuation `c`.
pub fn punct_at(ts: &Vec<TokenTree>, i: usize, hi: usize, c: char) -> (r: bool)
    requires
        hi <= ts@.len(),
    ensures
        r == (i < hi && is_punct(ts@[i as int], c)),
{
    if i < hi {
        match &ts[i] {
            TokenTree::Punct(p) => *p == c,
            _ => false,
        }
    } else {
        false
    }
}

/// The text of the identifier at `i`, below the bound `hi`, keywords included.
pub fn ident_at(ts: &Vec<TokenTree>, i: usize, hi: usize) -> (r: Option<String>)
    requires
        hi <= ts@.len(),
    ensures
        r is Some <==> (i < hi && ts@[i as int] is Ident),
        r is Some ==> r->0@ == ident_text(ts@[i as int]),
{
    if i < hi {
        match &ts[i] {
            TokenTree::Ident(s) => Some(s.clone()),
            _ => None,
        }
    } else {
        None
    }
}

/// The text of the identifier at `i`, below the bound `hi`, when it is not a
/// keyword.
pub fn plain_ident_at(ts: &Vec<TokenTree>, i: usize, hi: usize) -> (r: Option<String>)
    requires
        hi <= ts@.len(),
    ensures
        r is Some <==> (i < hi && ts@[i as int] is Ident && is_plain_ident(ident_text(ts@[i as int]))),
        r is Some ==> r->0@ == ident_text(ts@[i as int]),
{
    match ident_at(ts, i, hi) {
        Some(s) => {
            if accepts_plain_ident(s.as_str()) {
                Some(s)
            } else {
                None
            }
        },
        None => None,
    }
}

/// Whether `s` reads `lit`.
pub fn text_is(s: &String, lit: &str) -> (r: bool)
    ensures
        r == (s@ == lit@),
{
    *s == String::from_str(lit)
}

} // verus!
