use log_viewer::{CellStyle, FileParsers};

fn texts(p: FileParsers, line: &str) -> Vec<String> {
    p.parse_line(line)
        .expect("expected a row")
        .cells()
        .iter()
        .map(|c| c.text.clone())
        .collect()
}

#[test]
fn raw_whole_line_one_cell() {
    let row = FileParsers::Raw.parse_line("hello  world ").unwrap();
    assert_eq!(row.len(), 1);
    assert_eq!(row.cells()[0].text, "hello  world ");
    assert_eq!(row.cells()[0].style, None);
}

#[test]
fn spaces_three_tokens() {
    assert_eq!(texts(FileParsers::Spaces, "a bb ccc"), vec!["a", "bb", "ccc"]);
}

#[test]
fn spaces_collapses_runs_and_edges() {
    assert_eq!(texts(FileParsers::Spaces, "  a \t bb  "), vec!["a", "bb"]);
}

#[test]
fn spaces_all_whitespace_gives_empty_row() {
    let row = FileParsers::Spaces.parse_line("   ").unwrap();
    assert_eq!(row.len(), 0);
}

#[test]
fn tsv_keeps_empty_fields() {
    assert_eq!(texts(FileParsers::Tsv, "a\t\tb"), vec!["a", "", "b"]);
}

#[test]
fn tsv_trailing_tab_gives_trailing_empty_field() {
    assert_eq!(texts(FileParsers::Tsv, "x\t"), vec!["x", ""]);
}

#[test]
fn csv_keeps_inner_empty_fields() {
    assert_eq!(texts(FileParsers::Csv, "1,2,,4"), vec!["1", "2", "", "4"]);
}

#[test]
fn csv_trims_fields() {
    assert_eq!(texts(FileParsers::Csv, " a , b "), vec!["a", "b"]);
}

#[test]
fn csv_quoted_comma_stays_in_field() {
    assert_eq!(texts(FileParsers::Csv, "\"a,b\", c"), vec!["a,b", "c"]);
}

#[test]
fn csv_doubled_quote_is_literal_quote() {
    assert_eq!(
        texts(FileParsers::Csv, "\"he said \"\"hi\"\"\",x"),
        vec!["he said \"hi\"", "x"]
    );
}

#[test]
fn csv_comment_line_rejected() {
    assert!(FileParsers::Csv.parse_line("  # a note").is_none());
}

#[test]
fn csv_all_empty_fields_rejected() {
    assert!(FileParsers::Csv.parse_line(",,,").is_none());
    assert!(FileParsers::Csv.parse_line("").is_none());
    assert!(FileParsers::Csv.parse_line(" , ").is_none());
}

#[test]
fn level_message_error_styled() {
    let row = FileParsers::LevelMessage.parse_line("ERROR: disk full").unwrap();
    assert_eq!(row.len(), 2);
    assert_eq!(row.cells()[0].text, "ERROR");
    assert_eq!(row.cells()[0].style, Some(CellStyle::Red));
    assert_eq!(row.cells()[1].text, "disk full");
    assert_eq!(row.cells()[1].style, None);
}

#[test]
fn level_message_no_colon() {
    let row = FileParsers::LevelMessage.parse_line("no-colon-here").unwrap();
    assert_eq!(row.len(), 2);
    assert_eq!(row.cells()[0].text, "");
    assert_eq!(row.cells()[0].style, None);
    assert_eq!(row.cells()[1].text, "no-colon-here");
}

#[test]
fn level_message_case_insensitive() {
    let row = FileParsers::LevelMessage.parse_line("warn: low disk").unwrap();
    assert_eq!(row.cells()[0].style, Some(CellStyle::Yellow));
    let row = FileParsers::LevelMessage.parse_line("dbg: x").unwrap();
    assert_eq!(row.cells()[0].style, Some(CellStyle::LightBlue));
    let row = FileParsers::LevelMessage.parse_line("Trace: x").unwrap();
    assert_eq!(row.cells()[0].style, Some(CellStyle::Gray));
    let row = FileParsers::LevelMessage.parse_line("info: x").unwrap();
    assert_eq!(row.cells()[0].style, Some(CellStyle::Green));
}

#[test]
fn level_message_unknown_level_unstyled() {
    let row = FileParsers::LevelMessage.parse_line("FATAL: boom").unwrap();
    assert_eq!(row.cells()[0].text, "FATAL");
    assert_eq!(row.cells()[0].style, None);
}

#[test]
fn level_message_splits_at_first_colon_and_trims_message() {
    let row = FileParsers::LevelMessage.parse_line("INFO:  a:b:c  ").unwrap();
    assert_eq!(row.cells()[0].text, "INFO");
    assert_eq!(row.cells()[1].text, "a:b:c");
}

#[test]
fn every_parser_total_on_odd_input() {
    let nasty = ["", "\"", "\u{85}x\u{3000}", ":::", "{", "\t,\t", "# \" , :"];
    let parsers = [
        FileParsers::Raw,
        FileParsers::Spaces,
        FileParsers::Tsv,
        FileParsers::Csv,
        FileParsers::LevelMessage,
        FileParsers::JournalJson,
    ];
    for p in parsers {
        for line in nasty {
            let _ = p.parse_line(line);
        }
    }
}
