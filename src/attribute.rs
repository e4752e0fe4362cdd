use vstd::prelude::*;
use crate::binding::{property_entry, resolve, ValueKind};
use crate::directive::{directive_at, AttributeType, Directive};
use crate::error::{AttributeError, ErrorKind, ErrorModel};
use crate::name::dashed;
use crate::token::{is_punct, punct_at, TokenRange, TokenTree};

verus! {

/// An attribute: its form, the position of its `=`, and the tokens of its
/// value expression, which is carried into the generated code unevaluated.
#[derive(Debug)]
pub struct Attribute {
    pub ty: AttributeType,
    pub equals_at: usize,
    pub expr: TokenRange,
}

/// One instruction of the code that wires an element at construction time.
/// `_el` below is the element, held through a shared handle.
#[derive(Debug)]
pub enum Op {
    /// `create_effect` whose closure sets attribute `name` of `_el` to the
    /// display form of the expression at `value`.
    AttributeEffect { name: String, value: TokenRange },
    /// One-time registration of the expression at `handler` as the handler
    /// of `event` on `_el`.
    EventHandler { event: String, handler: TokenRange },
    /// Takes the expression at `cell` as the reactive cell of the binding,
    /// of the given value kind.
    BindCell { cell: TokenRange, kind: ValueKind },
    /// `create_effect` whose closure converts the cell's value to a host
    /// value and sets property `prop` of `_el` to it.
    PropertyEffect { prop: String, kind: ValueKind },
    /// Listener on `event` of `_el` that reads `prop` off the event target,
    /// converts it back and writes it into the cell.
    WriteBack { event: String, prop: String, kind: ValueKind },
    /// Stores a shared handle to `_el` into the reference at `target`.
    AssignRef { target: TokenRange },
}

/// The model of an instruction.
pub enum OpModel {
    AttributeEffect(Seq<char>, TokenRange),
    EventHandler(Seq<char>, TokenRange),
    BindCell(TokenRange, ValueKind),
    PropertyEffect(Seq<char>, ValueKind),
    WriteBack(Seq<char>, Seq<char>, ValueKind),
    AssignRef(TokenRange),
}

impl View for Op {
    type V = OpModel;

    open spec fn view(&self) -> OpModel {
        match self {
            Op::AttributeEffect { name, value } => OpModel::AttributeEffect(name@, *value),
            Op::EventHandler { event, handler } => OpModel::EventHandler(event@, *handler),
            Op::BindCell { cell, kind } => OpModel::BindCell(*cell, *kind),
            Op::PropertyEffect { prop, kind } => OpModel::PropertyEffect(prop@, *kind),
            Op::WriteBack { event, prop, kind } => OpModel::WriteBack(event@, prop@, *kind),
            Op::AssignRef { target } => OpModel::AssignRef(*target),
        }
    }
}

pub open spec fn ops_view(ops: Seq<Op>) -> Seq<OpModel> {
    ops.map_values(|o: Op| o@)
}

/// What an instruction group, or its diagnostic, comes to.
pub open spec fn outcome(r: Result<Vec<Op>, AttributeError>) -> Result<Seq<OpModel>, ErrorModel> {
    match r {
        Ok(ops) => Ok(ops_view(ops@)),
        Err(e) => Err(e@),
    }
}

/// The position of the token before the `=` at `eq`: a binding's property.
pub open spec fn prop_position(eq: int) -> int {
    if eq > 0 {
        eq - 1
    } else {
        0
    }
}

/// The instruction group of an attribute of form `d` whose `=` stands at
/// `eq` and whose expression is at `expr`.
pub open spec fn lowering(d: Directive, eq: int, expr: TokenRange) -> Result<Seq<OpModel>, ErrorModel> {
    match d {
        Directive::DomAttribute(segs) => Ok(seq![OpModel::AttributeEffect(dashed(segs), expr)]),
        Directive::Event(event) => Ok(seq![OpModel::EventHandler(event, expr)]),
        Directive::Bind(prop) => match property_entry(prop) {
            Some(e) => Ok(
                seq![
                    OpModel::BindCell(expr, e.1),
                    OpModel::PropertyEffect(prop, e.1),
                    OpModel::WriteBack(e.0, prop, e.1),
                ],
            ),
            None => Err((ErrorKind::UnsupportedProperty, prop_position(eq), prop)),
        },
        Directive::Ref => Ok(seq![OpModel::AssignRef(expr)]),
    }
}

/// The attribute spanning `[lo, hi)`: its form and the position of its `=`
/// (the expression fills the rest of the span), or the diagnostic.
pub open spec fn attribute_at(ts: Seq<TokenTree>, lo: int, hi: int) -> Result<(Directive, int), ErrorModel> {
    match directive_at(ts, hi, lo) {
        Err(e) => Err(e),
        Ok(p) => {
            let j = p.1;
            if j < hi && is_punct(ts[j], '=') {
                if j + 1 < hi {
                    Ok((p.0, j))
                } else {
                    Err((ErrorKind::ExpectedExpr, j + 1, Seq::empty()))
                }
            } else {
                Err((ErrorKind::ExpectedEquals, j, Seq::empty()))
            }
        },
    }
}

/// The instruction group, or the diagnostic, of the attribute spanning
/// `[lo, hi)`.
pub open spec fn attribute_outcome(ts: Seq<TokenTree>, lo: int, hi: int) -> Result<Seq<OpModel>, ErrorModel> {
    match attribute_at(ts, lo, hi) {
        Err(e) => Err(e),
        Ok(p) => lowering(p.0, p.1, TokenRange { start: (p.1 + 1) as usize, end: hi as usize }),
    }
}

impl Attribute {
    /// Parses the attribute that spans `[lo, hi)`: a directive, `=`, and a
    /// non-empty expression that takes the rest of the span.
    pub fn parse(ts: &Vec<TokenTree>, lo: usize, hi: usize) -> (r: Result<Attribute, AttributeError>)
        requires
            hi <= ts@.len(),
        ensures
            match attribute_at(ts@, lo as int, hi as int) {
                Ok(p) => r is Ok && r->Ok_0.ty@ == p.0 && r->Ok_0.equals_at == p.1
                    && r->Ok_0.expr == (TokenRange { start: (p.1 + 1) as usize, end: hi }),
                Err(e) => r is Err && r->Err_0@ == e,
            },
    {
        let (ty, j) = match AttributeType::parse(ts, lo, hi) {
            Ok(p) => p,
            Err(e) => {
                return Err(e);
            },
        };
        if !punct_at(ts, j, hi, '=') {
            return Err(AttributeError::new(ErrorKind::ExpectedEquals, j));
        }
        if j + 1 >= hi {
            return Err(AttributeError::new(ErrorKind::ExpectedExpr, j + 1));
        }
        Ok(Attribute { ty, equals_at: j, expr: TokenRange { start: j + 1, end: hi } })
    }

    /// Lowers the attribute into its instruction group; a binding of a
    /// property outside the binding table gives a diagnostic and no
    /// instruction.
    pub fn lower(&self) -> (r: Result<Vec<Op>, AttributeError>)
        ensures
            outcome(r) == lowering(self.ty@, self.equals_at as int, self.expr),
    {
        let mut ops: Vec<Op> = Vec::new();
        match &self.ty {
            AttributeType::DomAttribute { name } => {
                ops.push(Op::AttributeEffect { name: name.to_string(), value: self.expr });
            },
            AttributeType::Event { event } => {
                ops.push(Op::EventHandler { event: event.clone(), handler: self.expr });
            },
            AttributeType::Bind { prop } => {
                match resolve(prop) {
                    Ok(d) => {
                        ops.push(Op::BindCell { cell: self.expr, kind: d.kind });
                        ops.push(Op::PropertyEffect { prop: prop.clone(), kind: d.kind });
                        ops.push(Op::WriteBack { event: d.event, prop: prop.clone(), kind: d.kind });
                    },
                    Err(u) => {
                        let at = if self.equals_at > 0 {
                            self.equals_at - 1
                        } else {
                            0
                        };
                        return Err(AttributeError { kind: ErrorKind::UnsupportedProperty, at, name: u.prop });
                    },
                }
            },
            AttributeType::Ref => {
                ops.push(Op::AssignRef { target: self.expr });
            },
        }
        assert(ops_view(ops@) =~= lowering(self.ty@, self.equals_at as int, self.expr)->Ok_0);
        Ok(ops)
    }
}

} // verus!
