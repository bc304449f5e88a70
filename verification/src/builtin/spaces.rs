//! The whitespace parser: one cell per maximal run of non-whitespace.

use vstd::prelude::*;

use crate::cell::{plain_cells, plain_row, CellV};
use crate::parse::{opt_row_view, ParsedLine};
use crate::text::{split_ws, split_ws_str};

verus! {

/// What the whitespace parser yields: the whitespace-separated tokens of the
/// line as unstyled cells, empty tokens dropped. It never rejects.
pub open spec fn spec_spaces(s: Seq<char>) -> Option<Seq<CellV>> {
    Some(plain_row(split_ws(s)))
}

/// Split the line on runs of whitespace, one cell per token.
pub fn parse_line(line: &str) -> (r: Option<ParsedLine>)
    ensures
        opt_row_view(r) == spec_spaces(line@),
{
    let tokens = split_ws_str(line);
    Some(ParsedLine::new(plain_cells(tokens)))
}

} // verus!
