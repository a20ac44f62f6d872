//! The output formats of query results.

use vstd::prelude::*;

verus! {

/// How query results are written: a table for people, CSV with a header,
/// or JSON lines.
#[derive(Debug, Clone, Copy, PartialEq, Eq, Structural)]
pub enum Format {
    Table,
    Csv,
    Json,
}

impl Default for Format {
    fn default() -> (r: Format)
        ensures
            r == Format::Table,
    {
        Format::Table
    }
}

/// The text of a table cell: empty for a null value, otherwise the value as
/// rendered, or empty when it could not be rendered.
pub fn cell_text(is_null: bool, rendered: Option<String>) -> (r: String)
    ensures
        is_null ==> r@.len() == 0,
        !is_null && rendered is None ==> r@.len() == 0,
        !is_null ==> (rendered matches Some(t) ==> r@ == t@),
{
    if is_null {
        return String::new();
    }
    match rendered {
        Some(t) => t,
        None => String::new(),
    }
}

} // verus!
