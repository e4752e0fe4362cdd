use vstd::prelude::*;
use crate::token::text_is;

verus! {

/// The kind of value that a bound property holds.
#[derive(Clone, Copy, PartialEq, Eq, Debug)]
pub enum ValueKind {
    Boolean,
    String,
}

/// How a bindable property reports changes and what it holds.
#[derive(Debug)]
pub struct PropertyDescriptor {
    /// The event that the element fires when the property changes.
    pub event: String,
    pub kind: ValueKind,
}

/// A property that the binding table does not hold.
#[derive(Debug)]
pub struct UnsupportedProperty {
    pub prop: String,
}

/// The binding table: `value` changes on `input` and holds a string;
/// `checked` changes on `change` and holds a boolean.
pub open spec fn property_entry(prop: Seq<char>) -> Option<(Seq<char>, ValueKind)> {
    if prop == "value"@ {
        Some(("input"@, ValueKind::String))
    } else if prop == "checked"@ {
        Some(("change"@, ValueKind::Boolean))
    } else {
        None
    }
}

/// Looks up a property in the binding table.
pub fn resolve(prop: &String) -> (r: Result<PropertyDescriptor, UnsupportedProperty>)
    ensures
        match property_entry(prop@) {
            Some(e) => r is Ok && r->Ok_0.event@ == e.0 && r->Ok_0.kind == e.1,
            None => r is Err && r->Err_0.prop@ == prop@,
        },
{
    if text_is(prop, "value") {
        Ok(PropertyDescriptor { event: String::from_str("input"), kind: ValueKind::String })
    } else if text_is(prop, "checked") {
        Ok(PropertyDescriptor { event: String::from_str("change"), kind: ValueKind::Boolean })
    } else {
        Err(UnsupportedProperty { prop: prop.clone() })
    }
}

} // verus!
