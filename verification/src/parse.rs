//! Parsed rows and the growing document. A [`ParsedLine`] is an immutable
//! row of cells; a [`ParsedPartialFile`] is the append-only sequence of rows
//! seen so far, together with a per-column maximum-character-count cache that
//! is maintained incrementally on every append, so a renderer never has to
//! re-scan old rows to lay the table out.

use vstd::prelude::*;
use vstd::string::*;

use crate::cell::{Cell, CellV};

verus! {

/// The closed set of selectable line parsers. Selection happens once at
/// startup; every variant is total on its input line.
#[derive(Debug, Clone, Copy, PartialEq, Eq, Structural)]
pub enum FileParsers {
    /// The whole line as a single cell
    Raw,
    /// Space-separated values
    Spaces,
    /// Tab-separated values
    Tsv,
    /// Comma-separated values
    Csv,
    /// Simple "LEVEL: MESSAGE" log format
    LevelMessage,
    /// Journalctl JSON output
    JournalJson,
}

/// What parsing one line with the selected parser yields.
pub open spec fn spec_parse_line(p: FileParsers, s: Seq<char>) -> Option<Seq<CellV>> {
    match p {
        FileParsers::Raw => crate::builtin::raw::spec_raw(s),
        FileParsers::Spaces => crate::builtin::spaces::spec_spaces(s),
        FileParsers::Tsv => crate::builtin::tsv::spec_tsv(s),
        FileParsers::Csv => crate::builtin::csv::spec_csv(s),
        FileParsers::LevelMessage => crate::builtin::level_message::spec_level_message(s),
        FileParsers::JournalJson => crate::builtin::journal_json::spec_journal(s),
    }
}

impl FileParsers {
    /// Parse a line using the selected parser.
    pub fn parse_line(&self, line: &str) -> (r: Option<ParsedLine>)
        ensures
            opt_row_view(r) == spec_parse_line(*self, line@),
    {
        match self {
            FileParsers::Raw => crate::builtin::raw::parse_line(line),
            FileParsers::Spaces => crate::builtin::spaces::parse_line(line),
            FileParsers::Tsv => crate::builtin::tsv::parse_line(line),
            FileParsers::Csv => crate::builtin::csv::parse_line(line),
            FileParsers::LevelMessage => crate::builtin::level_message::parse_line(line),
            FileParsers::JournalJson => crate::builtin::journal_json::parse_line(line),
        }
    }
}

/// One parsed input line: an ordered sequence of cells. Rows of different
/// widths may coexist in one document.
pub struct ParsedLine {
    cells: Vec<Cell>,
}

impl View for ParsedLine {
    type V = Seq<CellV>;

    closed spec fn view(&self) -> Seq<CellV> {
        self.cells.deep_view()
    }
}

impl DeepView for ParsedLine {
    type V = Seq<CellV>;

    open spec fn deep_view(&self) -> Seq<CellV> {
        self.view()
    }
}

impl ParsedLine {
    /// Wrap a sequence of cells as a row.
    pub fn new(cells: Vec<Cell>) -> (r: Self)
        ensures
            r@ == cells.deep_view(),
    {
        ParsedLine { cells }
    }

    /// The cells of the row, in order.
    pub fn cells(&self) -> (r: &Vec<Cell>)
        ensures
            r.deep_view() == self@,
    {
        &self.cells
    }

    /// The number of cells in the row.
    pub fn len(&self) -> (r: usize)
        ensures
            r == self@.len(),
    {
        self.cells.len()
    }
}

/// The per-cell character counts of one row.
pub open spec fn row_widths(row: Seq<CellV>) -> Seq<nat> {
    Seq::new(row.len(), |i: int| row[i].text.len())
}

/// The larger of two naturals.
pub open spec fn nat_max(a: nat, b: nat) -> nat {
    if a >= b {
        a
    } else {
        b
    }
}

/// `s[i]`, reading positions past the end as zero.
pub open spec fn width_at(s: Seq<nat>, i: int) -> nat {
    if 0 <= i < s.len() {
        s[i]
    } else {
        0
    }
}

/// Pointwise maximum of two width sequences, the shorter one padded with
/// zeros: the new cache after one more row.
pub open spec fn merge_widths(a: Seq<nat>, b: Seq<nat>) -> Seq<nat> {
    Seq::new(nat_max(a.len(), b.len()), |i: int| nat_max(width_at(a, i), width_at(b, i)))
}

/// The column-width cache a sequence of rows deserves: for every column, the
/// maximum character count over the cells the rows have in that column.
pub open spec fn spec_widths(rows: Seq<Seq<CellV>>) -> Seq<nat>
    decreases rows.len(),
{
    if rows.len() == 0 {
        Seq::empty()
    } else {
        merge_widths(spec_widths(rows.drop_last()), row_widths(rows.last()))
    }
}

/// What a parse result denotes: the row's model on success, `None` on
/// rejection.
pub open spec fn opt_row_view(r: Option<ParsedLine>) -> Option<Seq<CellV>> {
    match r {
        Some(l) => Some(l@),
        None => None,
    }
}

/// Mathematical model of a [`ParsedPartialFile`]: the rows appended so far
/// and the cached column widths.
#[verifier::ext_equal]
pub struct FileV {
    pub lines: Seq<Seq<CellV>>,
    pub widths: Seq<nat>,
}

/// The growing, append-only document: all rows parsed so far plus the cached
/// maximum character count of every column.
pub struct ParsedPartialFile {
    lines: Vec<ParsedLine>,
    cached_column_max_char_counts: Vec<usize>,
}

impl View for ParsedPartialFile {
    type V = FileV;

    closed spec fn view(&self) -> FileV {
        FileV {
            lines: self.lines.deep_view(),
            widths: self.cached_column_max_char_counts@.map_values(|w: usize| w as nat),
        }
    }
}

impl ParsedPartialFile {
    /// The document's invariant: the cache is exactly the width sequence its
    /// rows deserve.
    pub open spec fn wf(&self) -> bool {
        self@.widths == spec_widths(self@.lines)
    }

    /// A new, empty document.
    pub fn new() -> (r: Self)
        ensures
            r.wf(),
            r@.lines == Seq::<Seq<CellV>>::empty(),
            r@.widths == Seq::<nat>::empty(),
    {
        let r = ParsedPartialFile { lines: Vec::new(), cached_column_max_char_counts: Vec::new() };
        proof {
            assert(r@.lines =~= Seq::<Seq<CellV>>::empty());
            assert(r@.widths =~= Seq::<nat>::empty());
        }
        r
    }

    /// The row at `index`, or `None` when the document is not that long yet.
    pub fn get_line(&self, index: usize) -> (r: Option<&ParsedLine>)
        ensures
            match r {
                Some(l) => index < self@.lines.len() && l@ == self@.lines[index as int],
                None => index >= self@.lines.len(),
            },
    {
        if index < self.lines.len() {
            Some(&self.lines[index])
        } else {
            None
        }
    }

    /// The number of rows appended so far.
    pub fn len(&self) -> (r: usize)
        ensures
            r == self@.lines.len(),
    {
        self.lines.len()
    }

    /// The number of columns seen so far: the length of the width cache.
    pub fn column_count(&self) -> (r: usize)
        ensures
            r == self@.widths.len(),
    {
        self.cached_column_max_char_counts.len()
    }

    /// The cached maximum character count of every column. A renderer maps
    /// these through its own glyph measurement to pixel widths; the core
    /// never owns font metrics.
    pub fn column_max_char_counts(&self) -> (r: &Vec<usize>)
        ensures
            r@.len() == self@.widths.len(),
            forall|i: int| 0 <= i < r@.len() ==> r@[i] as nat == self@.widths[i],
    {
        &self.cached_column_max_char_counts
    }

    /// Append one row and fold its cell widths into the cache, extending the
    /// cache with zeros first if the row is wider than any row before it.
    /// The cache never shrinks, and no already-cached width ever decreases.
    pub fn add_line(&mut self, line: ParsedLine)
        requires
            old(self).wf(),
        ensures
            final(self).wf(),
            final(self)@.lines == old(self)@.lines.push(line@),
            final(self)@.widths == merge_widths(old(self)@.widths, row_widths(line@)),
            final(self)@.widths.len() >= old(self)@.widths.len(),
            forall|i: int|
                0 <= i < old(self)@.widths.len() ==> old(self)@.widths[i] <= final(self)@.widths[i],
    {
        let ghost w0 = self.cached_column_max_char_counts@;
        let ghost rows0 = self.lines.deep_view();
        let cell_count = line.cells.len();
        let ghost padded_len: nat = if w0.len() < cell_count {
            cell_count as nat
        } else {
            w0.len()
        };
        while self.cached_column_max_char_counts.len() < cell_count
            invariant
                self.lines == old(self).lines,
                cell_count == line.cells@.len(),
                w0.len() <= self.cached_column_max_char_counts@.len() <= padded_len,
                padded_len == if w0.len() < cell_count {
                    cell_count as nat
                } else {
                    w0.len()
                },
                self.cached_column_max_char_counts@.subrange(0, w0.len() as int) == w0,
                forall|i: int|
                    w0.len() <= i < self.cached_column_max_char_counts@.len()
                        ==> self.cached_column_max_char_counts@[i] == 0,
            decreases cell_count - self.cached_column_max_char_counts@.len(),
        {
            self.cached_column_max_char_counts.push(0);
            proof {
                assert(self.cached_column_max_char_counts@.subrange(0, w0.len() as int) =~= w0);
            }
        }
        let ghost wpad = self.cached_column_max_char_counts@;
        let mut index: usize = 0;
        while index < cell_count
            invariant
                self.lines == old(self).lines,
                cell_count == line.cells@.len(),
                0 <= index <= cell_count <= self.cached_column_max_char_counts@.len(),
                self.cached_column_max_char_counts@.len() == wpad.len(),
                forall|i: int|
                    0 <= i < index ==> self.cached_column_max_char_counts@[i] as nat == nat_max(
                        wpad[i] as nat,
                        line.cells@[i]@.text.len(),
                    ),
                forall|i: int|
                    index <= i < wpad.len() ==> self.cached_column_max_char_counts@[i] == wpad[i],
            decreases cell_count - index,
        {
            let w = self.cached_column_max_char_counts[index];
            let cw = line.cells[index].text.as_str().unicode_len();
            if cw > w {
                self.cached_column_max_char_counts[index] = cw;
            }
            index += 1;
        }
        self.lines.push(line);
        proof {
            let rows1 = self.lines.deep_view();
            assert(rows1 =~= rows0.push(line@));
            assert(rows1.drop_last() =~= rows0);
            let w_new = self.cached_column_max_char_counts@.map_values(|w: usize| w as nat);
            let w_old = w0.map_values(|w: usize| w as nat);
            let wmerged = merge_widths(w_old, row_widths(line@));
            assert forall|i: int| 0 <= i < w_new.len() implies w_new[i] == wmerged[i] by {
                if i < cell_count {
                    if i < w0.len() {
                        assert(wpad[i] == w0[i]);
                    } else {
                        assert(wpad[i] == 0);
                    }
                } else {
                    assert(self.cached_column_max_char_counts@[i] == wpad[i]);
                    assert(wpad[i] == w0[i]);
                }
            }
            assert(w_new =~= wmerged);
            assert(self@.widths == merge_widths(old(self)@.widths, row_widths(line@)));
            assert(self@.lines == old(self)@.lines.push(line@));
            assert(spec_widths(self@.lines) == merge_widths(
                spec_widths(old(self)@.lines),
                row_widths(line@),
            ));
        }
    }
}

/// The document's line sequence after appending `rows`, one at a time, to an
/// empty document, as [`ParsedPartialFile::add_line`] builds it.
pub open spec fn lines_after_appends(rows: Seq<Seq<CellV>>) -> Seq<Seq<CellV>>
    decreases rows.len(),
{
    if rows.len() == 0 {
        Seq::empty()
    } else {
        lines_after_appends(rows.drop_last()).push(rows.last())
    }
}

/// Row order preservation: appending rows one at a time stores exactly that
/// sequence, so after `k + 1` or more appends the row at position `k` is the
/// `k`-th appended row, unchanged.
pub proof fn lemma_row_order_preserved(rows: Seq<Seq<CellV>>)
    ensures
        lines_after_appends(rows) == rows,
        forall|k: int| 0 <= k < rows.len() ==> lines_after_appends(rows)[k] == rows[k],
    decreases rows.len(),
{
    if rows.len() == 0 {
        assert(lines_after_appends(rows) =~= rows);
    } else {
        lemma_row_order_preserved(rows.drop_last());
        assert(lines_after_appends(rows) =~= rows);
    }
}

/// Append monotonicity: appending one more row never shortens the width
/// cache and never decreases a cached column width.
pub proof fn lemma_append_monotonic(rows: Seq<Seq<CellV>>, row: Seq<CellV>)
    ensures
        spec_widths(rows).len() <= spec_widths(rows.push(row)).len(),
        forall|i: int|
            0 <= i < spec_widths(rows).len() ==> spec_widths(rows)[i] <= spec_widths(
                rows.push(row),
            )[i],
{
    assert(rows.push(row).drop_last() =~= rows);
}

/// Whether some row among `rows` has a cell in column `i` whose text is
/// exactly as wide as the cached width of that column.
pub open spec fn width_achieved(rows: Seq<Seq<CellV>>, i: int) -> bool {
    exists|k: int|
        0 <= k < rows.len() && i < (#[trigger] rows[k]).len() && rows[k][i].text.len()
            == spec_widths(rows)[i]
}

/// Width tightness: every cell fits in its column's cached width, and every
/// cached width is achieved by some row actually ingested - the cache is the
/// exact maximum, not merely an upper bound.
pub proof fn lemma_width_tightness(rows: Seq<Seq<CellV>>)
    ensures
        forall|k: int, i: int|
            0 <= k < rows.len() && 0 <= i < rows[k].len() ==> i < spec_widths(rows).len()
                && rows[k][i].text.len() <= spec_widths(rows)[i],
        forall|i: int| 0 <= i < spec_widths(rows).len() ==> #[trigger] width_achieved(rows, i),
    decreases rows.len(),
{
    if rows.len() == 0 {
    } else {
        let rs = rows.drop_last();
        let r = rows.last();
        let wr = spec_widths(rs);
        let w = spec_widths(rows);
        lemma_width_tightness(rs);
        assert forall|k: int, i: int|
            0 <= k < rows.len() && 0 <= i < rows[k].len() implies i < w.len()
            && rows[k][i].text.len() <= w[i] by {
            if k < rows.len() - 1 {
                assert(rows[k] == rs[k]);
            } else {
                assert(rows[k] == r);
                assert(width_at(row_widths(r), i) == r[i].text.len());
            }
        }
        assert forall|i: int| 0 <= i < w.len() implies width_achieved(rows, i) by {
            let a = width_at(wr, i);
            let b = width_at(row_widths(r), i);
            assert(w[i] == nat_max(a, b));
            if b >= a && i < r.len() {
                let k = rows.len() - 1;
                assert(rows[k] == r);
                assert(0 <= k < rows.len() && i < rows[k].len() && rows[k][i].text.len() == w[i]);
            } else {
                if i >= r.len() {
                    assert(b == 0);
                }
                assert(i < wr.len());
                assert(w[i] == wr[i]);
                assert(width_achieved(rs, i));
                let k = choose|k2: int|
                    0 <= k2 < rs.len() && i < (#[trigger] rs[k2]).len() && rs[k2][i].text.len()
                        == spec_widths(rs)[i];
                assert(rows[k] == rs[k]);
                assert(0 <= k < rows.len() && i < rows[k].len() && rows[k][i].text.len() == w[i]);
            }
        }
    }
}

} // verus!
