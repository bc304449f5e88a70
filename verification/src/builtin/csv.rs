//! The comma-separated parser: standard quoted-field splitting, `#` as a
//! leading comment marker, and surrounding whitespace trimmed from every
//! field. A line is rejected when it is a comment or when every field is
//! empty after trimming.

use vstd::prelude::*;
use vstd::string::*;

use crate::cell::{plain_cells, plain_row, CellV};
use crate::parse::{opt_row_view, ParsedLine};
use crate::text::{push_char, trim_spec, trim_str};

verus! {

/// Field splitting of one comma-separated line, as a machine scanning from
/// position `i` with current field `cur`, finished fields `acc`, and quote
/// state `inq`: outside quotes a comma ends the field (trimmed as it is
/// pushed) and a double quote opens a quoted stretch; inside quotes a
/// doubled quote stands for one literal quote and a single one closes the
/// stretch. An unterminated quote runs to the end of the line.
pub open spec fn csv_fields_from(
    s: Seq<char>,
    i: int,
    cur: Seq<char>,
    acc: Seq<Seq<char>>,
    inq: bool,
) -> Seq<Seq<char>>
    decreases s.len() - i,
{
    if i < 0 || i >= s.len() {
        acc.push(trim_spec(cur))
    } else if inq {
        if s[i] == '"' {
            if i + 1 < s.len() && s[i + 1] == '"' {
                csv_fields_from(s, i + 2, cur.push('"'), acc, true)
            } else {
                csv_fields_from(s, i + 1, cur, acc, false)
            }
        } else {
            csv_fields_from(s, i + 1, cur.push(s[i]), acc, true)
        }
    } else {
        if s[i] == ',' {
            csv_fields_from(s, i + 1, Seq::empty(), acc.push(trim_spec(cur)), false)
        } else if s[i] == '"' {
            csv_fields_from(s, i + 1, cur, acc, true)
        } else {
            csv_fields_from(s, i + 1, cur.push(s[i]), acc, false)
        }
    }
}

/// The trimmed fields of one comma-separated line; always at least one.
pub open spec fn csv_fields(s: Seq<char>) -> Seq<Seq<char>> {
    csv_fields_from(s, 0, Seq::empty(), Seq::empty(), false)
}

/// Whether the line is a comment: its first character after leading
/// whitespace is `#`.
pub open spec fn is_comment_line(s: Seq<char>) -> bool {
    trim_spec(s).len() > 0 && trim_spec(s)[0] == '#'
}

/// What the comma-separated parser yields: `None` for a comment line and
/// when every split field is empty after trimming; otherwise the trimmed
/// fields as unstyled cells.
pub open spec fn spec_csv(s: Seq<char>) -> Option<Seq<CellV>> {
    if is_comment_line(s) {
        None
    } else {
        let fields = csv_fields(s);
        if fields.len() == 0 || (forall|j: int| 0 <= j < fields.len() ==> fields[j].len() == 0) {
            None
        } else {
            Some(plain_row(fields))
        }
    }
}

/// Split the line into trimmed comma-separated fields, honouring quoting and
/// the leading `#` comment marker.
pub fn parse_line(line: &str) -> (r: Option<ParsedLine>)
    ensures
        opt_row_view(r) == spec_csv(line@),
{
    let t = trim_str(line);
    if t.unicode_len() > 0 && t.get_char(0) == '#' {
        return None;
    }
    let n = line.unicode_len();
    let mut fields: Vec<String> = Vec::new();
    let mut cur: String = String::new();
    let mut inq = false;
    let mut i: usize = 0;
    proof {
        assert(fields.deep_view() =~= Seq::<Seq<char>>::empty());
    }
    while i < n
        invariant
            0 <= i <= n,
            n == line@.len(),
            csv_fields(line@) == csv_fields_from(
                line@,
                i as int,
                cur@,
                fields.deep_view(),
                inq,
            ),
        decreases n - i,
    {
        let c = line.get_char(i);
        if inq {
            if c == '"' {
                if i + 1 < n && line.get_char(i + 1) == '"' {
                    push_char(&mut cur, '"');
                    i += 2;
                } else {
                    inq = false;
                    i += 1;
                }
            } else {
                push_char(&mut cur, c);
                i += 1;
            }
        } else {
            if c == ',' {
                let ghost before = fields.deep_view();
                fields.push(trim_str(cur.as_str()).to_owned());
                cur = String::new();
                proof {
                    assert(fields.deep_view() =~= before.push(fields@.last()@));
                }
                i += 1;
            } else if c == '"' {
                inq = true;
                i += 1;
            } else {
                push_char(&mut cur, c);
                i += 1;
            }
        }
    }
    let ghost before = fields.deep_view();
    fields.push(trim_str(cur.as_str()).to_owned());
    proof {
        assert(fields.deep_view() =~= before.push(fields@.last()@));
        assert(fields.deep_view() == csv_fields(line@));
    }
    let mut any_nonempty = false;
    let mut k: usize = 0;
    while k < fields.len()
        invariant
            0 <= k <= fields@.len(),
            any_nonempty == !(forall|j: int|
                0 <= j < k ==> fields.deep_view()[j].len() == 0),
        decreases fields@.len() - k,
    {
        if fields[k].as_str().unicode_len() > 0 {
            any_nonempty = true;
            assert(fields.deep_view()[k as int].len() > 0);
        }
        k += 1;
    }
    if fields.is_empty() || !any_nonempty {
        return None;
    }
    Some(ParsedLine::new(plain_cells(fields)))
}

} // verus!
