use vstd::prelude::*;
use vstd::string::StringExecFns;

verus! {

/// An opaque integer key naming a field of the schema; this crate passes it
/// through unchanged and never interprets it.
pub type Field = u32;

/// An owned (field, text) pair naming the value a query searches for.
/// Immutable once constructed.
#[derive(Debug)]
pub struct Term {
    field: Field,
    text: String,
}

impl Term {
    /// The field the term belongs to.
    pub closed spec fn spec_field(&self) -> Field {
        self.field
    }

    /// The term's text.
    pub closed spec fn spec_text(&self) -> Seq<char> {
        self.text@
    }

    /// A term naming `text` within `field`.
    pub fn from_field_text(field: Field, text: &str) -> (r: Term)
        ensures
            r.spec_field() == field,
            r.spec_text() == text@,
    {
        Term { field, text: String::from_str(text) }
    }

    /// The field the term belongs to.
    pub fn field(&self) -> (r: Field)
        ensures
            r == self.spec_field(),
    {
        self.field
    }

    /// The term's text.
    pub fn text(&self) -> (r: &str)
        ensures
            r@ == self.spec_text(),
    {
        self.text.as_str()
    }
}

impl Clone for Term {
    fn clone(&self) -> (r: Self)
        ensures
            r.spec_field() == self.spec_field(),
            r.spec_text() == self.spec_text(),
    {
        Term { field: self.field, text: self.text.clone() }
    }
}

} // verus!
