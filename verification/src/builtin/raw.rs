//! The raw parser: the whole line becomes a single unstyled cell.

use vstd::prelude::*;
use vstd::string::*;

use crate::cell::{Cell, CellStyle, CellV};
use crate::parse::{opt_row_view, ParsedLine};

verus! {

/// What the raw parser yields: one unstyled cell holding the whole line.
/// It never rejects.
pub open spec fn spec_raw(s: Seq<char>) -> Option<Seq<CellV>> {
    Some(seq![(CellV { text: s, style: None })])
}

/// Wrap the entire line as a single cell, with no transformation.
pub fn parse_line(line: &str) -> (r: Option<ParsedLine>)
    ensures
        opt_row_view(r) == spec_raw(line@),
{
    let mut cells: Vec<Cell> = Vec::new();
    cells.push(Cell::plain(line.to_owned()));
    let row = ParsedLine::new(cells);
    proof {
        assert(row@ =~= seq![(CellV { text: line@, style: None::<CellStyle> })]);
    }
    Some(row)
}

} // verus!
