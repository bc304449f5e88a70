//! The journal parser: each input line is one JSON object in journalctl's
//! export format. An accepted line yields exactly six cells in fixed order -
//! timestamp, severity label, unit, identifier, pid and message.

use vstd::prelude::*;
use vstd::string::*;

use crate::cell::{Cell, CellStyle, CellV};
use crate::json::{json_doc, json_get_str, json_parse, json_str_fields};
use crate::parse::{opt_row_view, ParsedLine};
use crate::text::{i32_to_dec_string, int_dec_str, parse_i32_str, parse_i64_str, spec_parse_i32,
    spec_parse_i64};
use crate::timefmt::{format_utc_seconds, utc_datetime_text};

verus! {

/// One journal record, with every field as it stood in the JSON document:
/// the integer-valued fields are kept as text and parsed on demand. A
/// missing priority is the empty string.
pub struct JournalEntry {
    pub timestamp: String,
    pub unit: Option<String>,
    pub pid: Option<String>,
    pub identifier: Option<String>,
    pub priority: String,
    pub message: String,
}

impl JournalEntry {
    /// The microsecond timestamp, when the field holds a decimal integer in
    /// `i64` range.
    pub fn timestamp(&self) -> (r: Option<i64>)
        ensures
            r == spec_parse_i64(self.timestamp@),
    {
        parse_i64_str(self.timestamp.as_str())
    }

    /// The process id, when the field is present and holds a decimal integer
    /// in `i32` range.
    pub fn pid(&self) -> (r: Option<i32>)
        ensures
            r == match self.pid {
                Some(p) => spec_parse_i32(p@),
                None => None::<i32>,
            },
    {
        match &self.pid {
            Some(p) => parse_i32_str(p.as_str()),
            None => None,
        }
    }

    /// The priority, when the field holds a decimal integer in `i32` range
    /// (the empty default never does).
    pub fn priority(&self) -> (r: Option<i32>)
        ensures
            r == spec_parse_i32(self.priority@),
    {
        parse_i32_str(self.priority.as_str())
    }
}

/// The label and severity style for a journal priority value; values outside
/// 0 to 7, and a missing priority, are unknown.
pub open spec fn spec_severity_cell(p: Option<i32>) -> CellV {
    match p {
        Some(v) => if v == 0 {
            CellV { text: "EMERG"@, style: Some(CellStyle::Red) }
        } else if v == 1 {
            CellV { text: "ALERT"@, style: Some(CellStyle::Red) }
        } else if v == 2 {
            CellV { text: "CRIT"@, style: Some(CellStyle::Red) }
        } else if v == 3 {
            CellV { text: "ERR"@, style: Some(CellStyle::Red) }
        } else if v == 4 {
            CellV { text: "WARNING"@, style: Some(CellStyle::Yellow) }
        } else if v == 5 {
            CellV { text: "NOTICE"@, style: Some(CellStyle::Green) }
        } else if v == 6 {
            CellV { text: "INFO"@, style: Some(CellStyle::Green) }
        } else if v == 7 {
            CellV { text: "DEBUG"@, style: Some(CellStyle::LightBlue) }
        } else {
            CellV { text: "UNKNOWN"@, style: Some(CellStyle::Gray) }
        },
        None => CellV { text: "UNKNOWN"@, style: Some(CellStyle::Gray) },
    }
}

/// Build the severity cell for a parsed priority.
fn severity_cell_for(p: Option<i32>) -> (r: Cell)
    ensures
        r@ == spec_severity_cell(p),
{
    match p {
        Some(v) => if v == 0 {
            Cell::styled("EMERG".to_owned(), CellStyle::Red)
        } else if v == 1 {
            Cell::styled("ALERT".to_owned(), CellStyle::Red)
        } else if v == 2 {
            Cell::styled("CRIT".to_owned(), CellStyle::Red)
        } else if v == 3 {
            Cell::styled("ERR".to_owned(), CellStyle::Red)
        } else if v == 4 {
            Cell::styled("WARNING".to_owned(), CellStyle::Yellow)
        } else if v == 5 {
            Cell::styled("NOTICE".to_owned(), CellStyle::Green)
        } else if v == 6 {
            Cell::styled("INFO".to_owned(), CellStyle::Green)
        } else if v == 7 {
            Cell::styled("DEBUG".to_owned(), CellStyle::LightBlue)
        } else {
            Cell::styled("UNKNOWN".to_owned(), CellStyle::Gray)
        },
        None => Cell::styled("UNKNOWN".to_owned(), CellStyle::Gray),
    }
}

/// The whole seconds in a count of microseconds, the fraction truncated
/// toward zero.
pub open spec fn spec_micros_to_secs(ts: int) -> int {
    if ts >= 0 {
        ts / 1000000
    } else {
        -((-ts) / 1000000)
    }
}

/// Truncating division of a microsecond timestamp down to seconds.
fn micros_to_secs(ts: i64) -> (r: i64)
    ensures
        r == spec_micros_to_secs(ts as int),
{
    if ts >= 0 {
        let q = (ts as u64) / 1000000;
        proof {
            assert(q <= 0x7fffffffffffffff) by (nonlinear_arith)
                requires
                    q == (ts as u64) / 1000000,
                    ts as u64 <= 0x7fffffffffffffff,
            ;
        }
        q as i64
    } else {
        let mag: u64 = ((-(ts + 1)) as u64) + 1;
        let q = mag / 1000000;
        proof {
            assert(q <= 0x7fffffffffffffff) by (nonlinear_arith)
                requires
                    q == mag / 1000000,
                    mag <= 0x8000000000000000u64,
            ;
        }
        -(q as i64)
    }
}

/// Whether the document's field under `key` is present but not a JSON
/// string.
pub open spec fn non_string_field(fields: Map<Seq<char>, Option<Seq<char>>>, key: Seq<char>) -> bool {
    fields.dom().contains(key) && fields[key] is None
}

/// The document's field under `key` as text: the string content when
/// present, the empty string otherwise.
pub open spec fn field_text(fields: Map<Seq<char>, Option<Seq<char>>>, key: Seq<char>) -> Seq<
    char,
> {
    if fields.dom().contains(key) && fields[key] is Some {
        fields[key]->0
    } else {
        Seq::empty()
    }
}

/// What the journal parser yields. A line is rejected when it is not one
/// valid JSON document, when the timestamp field is absent or not a decimal
/// integer in `i64` range, when any of the six fields read is present but
/// not a JSON string, when the message field is absent, when the pid or
/// priority field is present but not a decimal integer in `i32` range, or
/// when the timestamp's whole seconds lie outside chrono's calendar range.
/// Otherwise the row holds the rendered UTC timestamp, the severity label
/// for the priority, the unit and identifier (empty when absent), the pid
/// re-rendered in decimal (empty when absent), and the message.
pub open spec fn spec_journal(s: Seq<char>) -> Option<Seq<CellV>> {
    match json_doc(s) {
        None => None,
        Some(fields) => {
            if !(fields.dom().contains("__REALTIME_TIMESTAMP"@) && fields["__REALTIME_TIMESTAMP"@]
                is Some) {
                None
            } else if non_string_field(fields, "_SYSTEMD_UNIT"@) {
                None
            } else if non_string_field(fields, "_PID"@) {
                None
            } else if non_string_field(fields, "SYSLOG_IDENTIFIER"@) {
                None
            } else if non_string_field(fields, "PRIORITY"@) {
                None
            } else if !(fields.dom().contains("MESSAGE"@) && fields["MESSAGE"@] is Some) {
                None
            } else if spec_parse_i64(fields["__REALTIME_TIMESTAMP"@]->0) is None {
                None
            } else if fields.dom().contains("PRIORITY"@) && spec_parse_i32(
                fields["PRIORITY"@]->0,
            ) is None {
                None
            } else if fields.dom().contains("_PID"@) && spec_parse_i32(fields["_PID"@]->0)
                is None {
                None
            } else {
                let micros = spec_parse_i64(fields["__REALTIME_TIMESTAMP"@]->0)->0;
                let secs = spec_micros_to_secs(micros as int);
                match utc_datetime_text(secs) {
                    None => None,
                    Some(ts_text) => {
                        let prio = if fields.dom().contains("PRIORITY"@) {
                            spec_parse_i32(fields["PRIORITY"@]->0)
                        } else {
                            None
                        };
                        let pid_text = if fields.dom().contains("_PID"@) {
                            int_dec_str(spec_parse_i32(fields["_PID"@]->0)->0 as int)
                        } else {
                            Seq::<char>::empty()
                        };
                        Some(
                            seq![
                                (CellV { text: ts_text, style: None }),
                                spec_severity_cell(prio),
                                (CellV {
                                    text: field_text(fields, "_SYSTEMD_UNIT"@),
                                    style: Some(CellStyle::DarkGreen),
                                }),
                                (CellV {
                                    text: field_text(fields, "SYSLOG_IDENTIFIER"@),
                                    style: Some(CellStyle::LightGreen),
                                }),
                                (CellV { text: pid_text, style: Some(CellStyle::LightBlue) }),
                                (CellV {
                                    text: fields["MESSAGE"@]->0,
                                    style: Some(CellStyle::WhiteWeak),
                                }),
                            ],
                        )
                    },
                }
            }
        },
    }
}

/// Parse one journal export line into its six cells.
pub fn parse_line(line: &str) -> (r: Option<ParsedLine>)
    ensures
        opt_row_view(r) == spec_journal(line@),
{
    let v = match json_parse(line) {
        Some(v) => v,
        None => {
            return None;
        },
    };
    let ts_str = match json_get_str(&v, "__REALTIME_TIMESTAMP") {
        Some(Some(s)) => s,
        _ => {
            return None;
        },
    };
    let unit = match json_get_str(&v, "_SYSTEMD_UNIT") {
        None => None,
        Some(Some(s)) => Some(s),
        Some(None) => {
            return None;
        },
    };
    let pid_field = match json_get_str(&v, "_PID") {
        None => None,
        Some(Some(s)) => Some(s),
        Some(None) => {
            return None;
        },
    };
    let identifier = match json_get_str(&v, "SYSLOG_IDENTIFIER") {
        None => None,
        Some(Some(s)) => Some(s),
        Some(None) => {
            return None;
        },
    };
    let priority_field = match json_get_str(&v, "PRIORITY") {
        None => None,
        Some(Some(s)) => Some(s),
        Some(None) => {
            return None;
        },
    };
    let message = match json_get_str(&v, "MESSAGE") {
        Some(Some(s)) => s,
        _ => {
            return None;
        },
    };
    let priority_present = priority_field.is_some();
    let entry = JournalEntry {
        timestamp: ts_str,
        unit,
        pid: pid_field,
        identifier,
        priority: match priority_field {
            Some(p) => p,
            None => String::new(),
        },
        message,
    };
    let micros = match entry.timestamp() {
        Some(t) => t,
        None => {
            return None;
        },
    };
    let prio: Option<i32> = match entry.priority() {
        Some(pv) => Some(pv),
        None => {
            if priority_present {
                return None;
            }
            None
        },
    };
    let pid_text: String = if entry.pid.is_some() {
        match entry.pid() {
            Some(pv) => i32_to_dec_string(pv),
            None => {
                return None;
            },
        }
    } else {
        String::new()
    };
    let secs = micros_to_secs(micros);
    let ts_text = match format_utc_seconds(secs) {
        Some(t) => t,
        None => {
            return None;
        },
    };
    let mut cells: Vec<Cell> = Vec::new();
    cells.push(Cell::plain(ts_text));
    cells.push(severity_cell_for(prio));
    cells.push(
        Cell::styled(
            match entry.unit {
                Some(u) => u,
                None => String::new(),
            },
            CellStyle::DarkGreen,
        ),
    );
    cells.push(
        Cell::styled(
            match entry.identifier {
                Some(u) => u,
                None => String::new(),
            },
            CellStyle::LightGreen,
        ),
    );
    cells.push(Cell::styled(pid_text, CellStyle::LightBlue));
    cells.push(Cell::styled(entry.message, CellStyle::WhiteWeak));
    let row = ParsedLine::new(cells);
    proof {
        assert(row@ =~= spec_journal(line@)->0);
    }
    Some(row)
}

} // verus!
