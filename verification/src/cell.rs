//! A cell is one field of a parsed row: its text together with an optional
//! semantic style tag. The tag names a presentation intent (a severity
//! colour, an emphasis); mapping it to an actual colour or font is the
//! renderer's business, never this crate's.

use vstd::prelude::*;

verus! {

/// Semantic presentation tag for a cell. The renderer decides what each
/// variant looks like; the core only records the intent.
#[derive(Debug, Clone, Copy, PartialEq, Eq, Structural)]
pub enum CellStyle {
    Red,
    Yellow,
    Green,
    LightBlue,
    Gray,
    DarkGreen,
    LightGreen,
    WhiteWeak,
}

/// One field of a parsed row: text plus an optional style tag.
/// Immutable once constructed.
pub struct Cell {
    pub text: String,
    pub style: Option<CellStyle>,
}

/// Mathematical model of a [`Cell`]: the text as a sequence of characters,
/// and the style tag unchanged.
#[verifier::ext_equal]
pub struct CellV {
    pub text: Seq<char>,
    pub style: Option<CellStyle>,
}

impl View for Cell {
    type V = CellV;

    open spec fn view(&self) -> CellV {
        CellV { text: self.text@, style: self.style }
    }
}

impl DeepView for Cell {
    type V = CellV;

    open spec fn deep_view(&self) -> CellV {
        self.view()
    }
}

impl Cell {
    /// Build a cell with no style tag.
    pub fn plain(text: String) -> (r: Cell)
        ensures
            r@.text == text@,
            r@.style is None,
    {
        Cell { text, style: None }
    }

    /// Build a cell carrying a style tag.
    pub fn styled(text: String, style: CellStyle) -> (r: Cell)
        ensures
            r@.text == text@,
            r@.style == Some(style),
    {
        Cell { text, style: Some(style) }
    }
}

/// A row of unstyled cells carrying the given field texts, in order.
pub open spec fn plain_row(fields: Seq<Seq<char>>) -> Seq<CellV> {
    fields.map_values(|t: Seq<char>| (CellV { text: t, style: None }))
}

/// Turn a list of field texts into a row of unstyled cells.
pub fn plain_cells(fields: Vec<String>) -> (r: Vec<Cell>)
    ensures
        r.deep_view() == plain_row(fields.deep_view()),
{
    let mut cells: Vec<Cell> = Vec::new();
    let mut i: usize = 0;
    while i < fields.len()
        invariant
            0 <= i <= fields@.len(),
            cells.deep_view() == fields.deep_view().subrange(0, i as int).map_values(
                |t: Seq<char>| (CellV { text: t, style: None }),
            ),
        decreases fields@.len() - i,
    {
        let ghost before = cells.deep_view();
        cells.push(Cell::plain(fields[i].clone()));
        proof {
            assert(cells.deep_view() =~= before.push(cells@.last()@));
            assert(cells@.last()@ =~= (CellV { text: fields.deep_view()[i as int], style: None }));
            assert(cells.deep_view() =~= fields.deep_view().subrange(0, i + 1).map_values(
                |t: Seq<char>| (CellV { text: t, style: None }),
            ));
        }
        i += 1;
    }
    proof {
        assert(fields.deep_view().subrange(0, fields@.len() as int) =~= fields.deep_view());
    }
    cells
}

} // verus!
