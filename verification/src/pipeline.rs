//! The ingestion step and the liveness flag. The surrounding read loop -
//! blocking on the byte source, holding the lock that makes each append
//! atomic for the renderer - belongs to the boundary; what one line does to
//! the document is decided and verified here.

use vstd::prelude::*;

use crate::parse::{merge_widths, row_widths, spec_parse_line, FileParsers, ParsedPartialFile};
use crate::text::{is_blank, is_blank_str};

verus! {

/// What one input line did to the document.
#[derive(Debug, Clone, Copy, PartialEq, Eq, Structural)]
pub enum IngestOutcome {
    /// Empty or all-whitespace: discarded before any parser ran.
    Blank,
    /// The parser rejected the line; the document is unchanged.
    Rejected,
    /// The parsed row was appended, width cache updated with it.
    Appended,
}

/// Feed one line to the document. A blank line is discarded without reaching
/// the parser and without touching the document; a rejected line leaves the
/// document unchanged; an accepted row is appended together with its
/// column-width update, one atomic step on the document.
pub fn ingest_line(doc: &mut ParsedPartialFile, parser: FileParsers, line: &str) -> (r:
    IngestOutcome)
    requires
        old(doc).wf(),
    ensures
        final(doc).wf(),
        is_blank(line@) ==> r == IngestOutcome::Blank && final(doc)@ == old(doc)@,
        !is_blank(line@) && spec_parse_line(parser, line@) is None ==> r
            == IngestOutcome::Rejected && final(doc)@ == old(doc)@,
        !is_blank(line@) ==> (spec_parse_line(parser, line@) matches Some(row) ==> {
            &&& r == IngestOutcome::Appended
            &&& final(doc)@.lines == old(doc)@.lines.push(row)
            &&& final(doc)@.widths == merge_widths(old(doc)@.widths, row_widths(row))
        }),
{
    if is_blank_str(line) {
        return IngestOutcome::Blank;
    }
    match parser.parse_line(line) {
        Some(row) => {
            doc.add_line(row);
            IngestOutcome::Appended
        },
        None => IngestOutcome::Rejected,
    }
}

/// Whether the input stream is still open. Created live; closing is the one
/// transition, taken exactly once at end-of-stream or on a read fault, and
/// never reversed.
pub struct LiveFlag {
    live: bool,
}

impl LiveFlag {
    /// The flag's state: `true` while the stream is open.
    pub closed spec fn spec_live(&self) -> bool {
        self.live
    }

    /// A fresh flag: the stream starts open.
    pub fn new() -> (r: Self)
        ensures
            r.spec_live(),
    {
        LiveFlag { live: true }
    }

    /// Read the flag.
    pub fn is_live(&self) -> (r: bool)
        ensures
            r == self.spec_live(),
    {
        self.live
    }

    /// Record end-of-stream.
    pub fn close(&mut self)
        ensures
            !final(self).spec_live(),
    {
        self.live = false;
    }
}

} // verus!
