//! Which part of a document is printed.

use vstd::prelude::*;
use vstd::string::*;

verus! {

/// Prints a document whole.
#[derive(Debug)]
pub struct ResultPrinter {}

/// Prints one field of a document.
#[derive(Debug)]
pub struct FieldResultPrinter {
    pub field: String,
}

/// One of the two printers.
#[derive(Debug)]
pub enum Printer {
    FieldResult(FieldResultPrinter),
    DocResult(ResultPrinter),
}

impl Printer {
    /// The field that this printer prints, or `None` if it prints the
    /// document whole.
    pub open spec fn field_view(&self) -> Option<Seq<char>> {
        match self {
            Printer::FieldResult(p) => Some(p.field@),
            Printer::DocResult(_) => None,
        }
    }

    /// The printer for a field where one is named, and the printer for the
    /// whole document where none is.
    pub fn from_field_option(field: Option<String>) -> (printer: Printer)
        ensures
            printer.field_view() == match field {
                Some(name) => Some(name@),
                None => None,
            },
    {
        match field {
            Some(name) => Printer::FieldResult(FieldResultPrinter { field: name }),
            None => Printer::DocResult(ResultPrinter {  }),
        }
    }

    /// The field that this printer prints, if it prints one.
    pub fn field(&self) -> (name: Option<&str>)
        ensures
            match name {
                Some(n) => self.field_view() == Some(n@),
                None => self.field_view() is None,
            },
    {
        match self {
            Printer::FieldResult(p) => Some(p.field.as_str()),
            Printer::DocResult(_) => None,
        }
    }
}

} // verus!
