use vstd::prelude::*;
use crate::error::{AttributeError, ErrorKind, ErrorModel};
use crate::name::{dashed, name_at, AttributeName};
use crate::token::{ident_at, ident_text, is_punct, punct_at, text_is, TokenTree};

verus! {

/// The form of an attribute, decided by its directive.
#[derive(Debug)]
pub enum AttributeType {
    /// Syntax: `name`.
    DomAttribute { name: AttributeName },
    /// Syntax: `on:event`.
    Event { event: String },
    /// Syntax: `bind:prop`.
    Bind { prop: String },
    /// Syntax: `ref`.
    Ref,
}

/// The model of an attribute form.
pub enum Directive {
    DomAttribute(Seq<Seq<char>>),
    Event(Seq<char>),
    Bind(Seq<char>),
    Ref,
}

impl View for AttributeType {
    type V = Directive;

    open spec fn view(&self) -> Directive {
        match self {
            AttributeType::DomAttribute { name } => Directive::DomAttribute(name@),
            AttributeType::Event { event } => Directive::Event(event@),
            AttributeType::Bind { prop } => Directive::Bind(prop@),
            AttributeType::Ref => Directive::Ref,
        }
    }
}

/// The directive starting at `lo`, with tokens bounded by `hi`: its form and
/// the position after it, or the diagnostic.
pub open spec fn directive_at(ts: Seq<TokenTree>, hi: int, lo: int) -> Result<(Directive, int), ErrorModel> {
    match name_at(ts, hi, lo) {
        Err(at) => Err((ErrorKind::ExpectedIdent, at, Seq::empty())),
        Ok(p) => {
            let tag = dashed(p.0);
            let j = p.1;
            if tag == "ref"@ {
                Ok((Directive::Ref, j))
            } else if j < hi && is_punct(ts[j], ':') {
                if tag == "on"@ || tag == "bind"@ {
                    if j + 1 < hi && ts[j + 1] is Ident {
                        let q = ident_text(ts[j + 1]);
                        if tag == "on"@ {
                            Ok((Directive::Event(q), j + 2))
                        } else {
                            Ok((Directive::Bind(q), j + 2))
                        }
                    } else {
                        Err((ErrorKind::ExpectedIdent, j + 1, Seq::empty()))
                    }
                } else {
                    Err((ErrorKind::UnknownDirective, lo, tag))
                }
            } else {
                Ok((Directive::DomAttribute(p.0), j))
            }
        },
    }
}

impl AttributeType {
    /// Classifies the directive at `lo`, reading no token at or past `hi`; on
    /// success also returns the position after the directive.
    pub fn parse(ts: &Vec<TokenTree>, lo: usize, hi: usize) -> (r: Result<(AttributeType, usize), AttributeError>)
        requires
            hi <= ts@.len(),
        ensures
            match directive_at(ts@, hi as int, lo as int) {
                Ok(p) => r is Ok && r->Ok_0.0@ == p.0 && r->Ok_0.1 == p.1,
                Err(e) => r is Err && r->Err_0@ == e,
            },
    {
        let (name, j) = match AttributeName::parse(ts, lo, hi) {
            Ok(p) => p,
            Err(e) => {
                return Err(e);
            },
        };
        let tag = name.to_string();
        if text_is(&tag, "ref") {
            Ok((AttributeType::Ref, j))
        } else if punct_at(ts, j, hi, ':') {
            let is_on = text_is(&tag, "on");
            if is_on || text_is(&tag, "bind") {
                match ident_at(ts, j + 1, hi) {
                    Some(q) => {
                        if is_on {
                            Ok((AttributeType::Event { event: q }, j + 2))
                        } else {
                            Ok((AttributeType::Bind { prop: q }, j + 2))
                        }
                    },
                    None => Err(AttributeError::new(ErrorKind::ExpectedIdent, j + 1)),
                }
            } else {
                Err(AttributeError { kind: ErrorKind::UnknownDirective, at: lo, name: tag })
            }
        } else {
            Ok((AttributeType::DomAttribute { name }, j))
        }
    }
}

/// `ref` is a complete directive: whatever follows it, unless a hyphen
/// extends the name, it classifies as a reference and no qualifier is read.
pub proof fn lemma_ref_is_complete(ts: Seq<TokenTree>, hi: int, lo: int)
    requires
        0 <= lo < hi <= ts.len(),
        ts[lo] is Ident,
        ident_text(ts[lo]) == "ref"@,
        !(lo + 1 < hi && is_punct(ts[lo + 1], '-')),
    ensures
        directive_at(ts, hi, lo) == Ok::<(Directive, int), ErrorModel>((Directive::Ref, lo + 1)),
{
    assert(name_at(ts, hi, lo) == Ok::<(Seq<Seq<char>>, int), int>((seq![ident_text(ts[lo])], lo + 1)));
    assert(dashed(seq![ident_text(ts[lo])]) == ident_text(ts[lo]));
}

} // verus!
