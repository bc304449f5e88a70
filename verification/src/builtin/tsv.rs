//! The tab-separated parser: cells split strictly on the tab character.

use vstd::prelude::*;

use crate::cell::{plain_cells, plain_row, CellV};
use crate::parse::{opt_row_view, ParsedLine};
use crate::text::{split_sep, split_sep_str};

verus! {

/// What the tab-separated parser yields: the fields of the line between tab
/// characters, as unstyled cells; empty fields between consecutive tabs are
/// kept. It never rejects.
pub open spec fn spec_tsv(s: Seq<char>) -> Option<Seq<CellV>> {
    Some(plain_row(split_sep(s, '\t')))
}

/// Split the line strictly on tab characters, keeping empty fields.
pub fn parse_line(line: &str) -> (r: Option<ParsedLine>)
    ensures
        opt_row_view(r) == spec_tsv(line@),
{
    let fields = split_sep_str(line, '\t');
    Some(ParsedLine::new(plain_cells(fields)))
}

} // verus!
