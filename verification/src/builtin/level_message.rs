//! The level-message parser for the plain `LEVEL: MESSAGE` log format:
//! always exactly two cells, the level styled by its severity class.

use vstd::prelude::*;
use vstd::string::*;

use crate::cell::{Cell, CellStyle, CellV};
use crate::parse::{opt_row_view, ParsedLine};
use crate::text::{eq_ascii_uc, eq_ignore_ascii_case, find_char, find_from, trim_spec, trim_str};

verus! {

/// The severity style a level name earns, compared ignoring ASCII case;
/// unrecognised levels get none.
pub open spec fn spec_level_style(level: Seq<char>) -> Option<CellStyle> {
    if eq_ascii_uc(level, "ERROR"@) || eq_ascii_uc(level, "ERR"@) {
        Some(CellStyle::Red)
    } else if eq_ascii_uc(level, "WARN"@) || eq_ascii_uc(level, "WARNING"@) {
        Some(CellStyle::Yellow)
    } else if eq_ascii_uc(level, "INFO"@) {
        Some(CellStyle::Green)
    } else if eq_ascii_uc(level, "DEBUG"@) || eq_ascii_uc(level, "DBG"@) {
        Some(CellStyle::LightBlue)
    } else if eq_ascii_uc(level, "TRACE"@) {
        Some(CellStyle::Gray)
    } else {
        None
    }
}

/// What the level-message parser yields: split at the first colon, the text
/// before it is the level (styled by its severity class) and the text after
/// it, trimmed, is the message; without a colon the level is empty and the
/// message is the whole line. Always exactly two cells; it never rejects.
pub open spec fn spec_level_message(s: Seq<char>) -> Option<Seq<CellV>> {
    let level = match find_from(s, ':', 0) {
        Some(j) => s.subrange(0, j),
        None => Seq::<char>::empty(),
    };
    let message = match find_from(s, ':', 0) {
        Some(j) => trim_spec(s.subrange(j + 1, s.len() as int)),
        None => s,
    };
    Some(
        seq![
            (CellV { text: level, style: spec_level_style(level) }),
            (CellV { text: message, style: None }),
        ],
    )
}

/// Executable form of [`spec_level_style`].
fn level_style(level: &str) -> (r: Option<CellStyle>)
    ensures
        r == spec_level_style(level@),
{
    if eq_ignore_ascii_case(level, "ERROR") || eq_ignore_ascii_case(level, "ERR") {
        Some(CellStyle::Red)
    } else if eq_ignore_ascii_case(level, "WARN") || eq_ignore_ascii_case(level, "WARNING") {
        Some(CellStyle::Yellow)
    } else if eq_ignore_ascii_case(level, "INFO") {
        Some(CellStyle::Green)
    } else if eq_ignore_ascii_case(level, "DEBUG") || eq_ignore_ascii_case(level, "DBG") {
        Some(CellStyle::LightBlue)
    } else if eq_ignore_ascii_case(level, "TRACE") {
        Some(CellStyle::Gray)
    } else {
        None
    }
}

/// Split the line at its first colon into a styled level and a trimmed
/// message.
pub fn parse_line(line: &str) -> (r: Option<ParsedLine>)
    ensures
        opt_row_view(r) == spec_level_message(line@),
{
    let n = line.unicode_len();
    let (level, message): (String, String) = match find_char(line, ':') {
        Some(j) => {
            let lv = line.substring_char(0, j).to_owned();
            let ms = trim_str(line.substring_char(j + 1, n)).to_owned();
            (lv, ms)
        },
        None => (String::new(), line.to_owned()),
    };
    let style = level_style(level.as_str());
    let mut cells: Vec<Cell> = Vec::new();
    match style {
        Some(st) => cells.push(Cell::styled(level, st)),
        None => cells.push(Cell::plain(level)),
    }
    cells.push(Cell::plain(message));
    let row = ParsedLine::new(cells);
    proof {
        assert(opt_row_view(Some(row)) =~= spec_level_message(line@));
    }
    Some(row)
}

} // verus!
