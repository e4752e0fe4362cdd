use vstd::prelude::*;

verus! {

/// What went wrong with one attribute.
#[derive(Clone, Copy, PartialEq, Eq, Debug)]
pub enum ErrorKind {
    /// The attribute list is not enclosed in parentheses.
    ExpectedParens,
    /// A directive name, a hyphen-extension or a qualifier is not an identifier.
    ExpectedIdent,
    /// A colon follows a tag other than `on` or `bind`.
    UnknownDirective,
    /// The directive is not followed by `=`.
    ExpectedEquals,
    /// Nothing follows the `=`.
    ExpectedExpr,
    /// `bind:` names a property outside the binding table.
    UnsupportedProperty,
}

/// A diagnostic: its kind, the position of the token it concerns, and the
/// name it reports (the unknown tag or the unsupported property; empty for the
/// other kinds).
#[derive(Debug)]
pub struct AttributeError {
    pub kind: ErrorKind,
    pub at: usize,
    pub name: String,
}

/// The model of a diagnostic: kind, position and reported name.
pub type ErrorModel = (ErrorKind, int, Seq<char>);

impl View for AttributeError {
    type V = ErrorModel;

    open spec fn view(&self) -> ErrorModel {
        (self.kind, self.at as int, self.name@)
    }
}

impl AttributeError {
    pub fn new(kind: ErrorKind, at: usize) -> (r: AttributeError)
        ensures
            r@ == (kind, at as int, Seq::<char>::empty()),
    {
        AttributeError { kind, at, name: String::new() }
    }

    /// The diagnostic's message.
    pub fn message(&self) -> (r: String)
        ensures
            self.kind == ErrorKind::ExpectedParens ==> r@ == "expected parentheses"@,
            self.kind == ErrorKind::ExpectedIdent ==> r@ == "expected identifier"@,
            self.kind == ErrorKind::ExpectedEquals ==> r@ == "expected `=`"@,
            self.kind == ErrorKind::ExpectedExpr ==> r@ == "expected expression"@,
            self.kind == ErrorKind::UnknownDirective ==> r@ == "unknown directive `"@ + self.name@ + "`"@,
            self.kind == ErrorKind::UnsupportedProperty ==> r@ == "property `"@ + self.name@ + "` is not supported with bind:"@,
    {
        match self.kind {
            ErrorKind::ExpectedParens => String::from_str("expected parentheses"),
            ErrorKind::ExpectedIdent => String::from_str("expected identifier"),
            ErrorKind::UnknownDirective => {
                let mut m = String::from_str("unknown directive `");
                m.append(self.name.as_str());
                m.append("`");
                m
            },
            ErrorKind::ExpectedEquals => String::from_str("expected `=`"),
            ErrorKind::ExpectedExpr => String::from_str("expected expression"),
            ErrorKind::UnsupportedProperty => {
                let mut m = String::from_str("property `");
                m.append(self.name.as_str());
                m.append("` is not supported with bind:");
                m
            },
        }
    }
}

} // verus!
