use log_viewer::{ingest_line, Cell, FileParsers, IngestOutcome, LiveFlag, ParsedLine,
    ParsedPartialFile};

fn plain_row(texts: &[&str]) -> ParsedLine {
    let cells: Vec<Cell> = texts.iter().map(|t| Cell::plain((*t).to_string())).collect();
    ParsedLine::new(cells)
}

#[test]
fn spaces_line_widths() {
    let mut doc = ParsedPartialFile::new();
    let outcome = ingest_line(&mut doc, FileParsers::Spaces, "a bb ccc");
    assert_eq!(outcome, IngestOutcome::Appended);
    assert_eq!(doc.len(), 1);
    assert_eq!(doc.column_count(), 3);
    assert_eq!(doc.column_max_char_counts(), &vec![1, 2, 3]);
}

#[test]
fn widths_merge_wider_row() {
    let mut doc = ParsedPartialFile::new();
    doc.add_line(plain_row(&["x", "yyy"]));
    assert_eq!(doc.column_count(), 2);
    assert_eq!(doc.column_max_char_counts(), &vec![1, 3]);
    doc.add_line(plain_row(&["z", "", "w", "q"]));
    assert_eq!(doc.column_count(), 4);
    assert_eq!(doc.column_max_char_counts(), &vec![1, 3, 1, 1]);
}

#[test]
fn widths_never_decrease() {
    let mut doc = ParsedPartialFile::new();
    let rows: [&[&str]; 4] = [&["aaaa"], &["b", "cc"], &[], &["ddddd", "e", "f"]];
    let mut prev: Vec<usize> = Vec::new();
    for r in rows {
        doc.add_line(plain_row(r));
        let cur = doc.column_max_char_counts().clone();
        assert!(cur.len() >= prev.len());
        for (i, w) in prev.iter().enumerate() {
            assert!(cur[i] >= *w);
        }
        prev = cur;
    }
    assert_eq!(prev, vec![5, 2, 1]);
}

#[test]
fn rows_kept_in_append_order() {
    let mut doc = ParsedPartialFile::new();
    doc.add_line(plain_row(&["first"]));
    doc.add_line(plain_row(&["second", "row"]));
    doc.add_line(plain_row(&["third"]));
    assert_eq!(doc.len(), 3);
    assert_eq!(doc.get_line(0).unwrap().cells()[0].text, "first");
    assert_eq!(doc.get_line(1).unwrap().cells()[0].text, "second");
    assert_eq!(doc.get_line(1).unwrap().cells()[1].text, "row");
    assert_eq!(doc.get_line(2).unwrap().cells()[0].text, "third");
    assert!(doc.get_line(3).is_none());
}

#[test]
fn empty_document() {
    let doc = ParsedPartialFile::new();
    assert_eq!(doc.len(), 0);
    assert_eq!(doc.column_count(), 0);
    assert!(doc.get_line(0).is_none());
}

#[test]
fn blank_lines_never_reach_a_parser() {
    let parsers = [
        FileParsers::Raw,
        FileParsers::Spaces,
        FileParsers::Tsv,
        FileParsers::Csv,
        FileParsers::LevelMessage,
        FileParsers::JournalJson,
    ];
    for p in parsers {
        let mut doc = ParsedPartialFile::new();
        for blank in ["", "   ", " \t ", "\u{a0}\u{3000}"] {
            let outcome = ingest_line(&mut doc, p, blank);
            assert_eq!(outcome, IngestOutcome::Blank);
            assert_eq!(doc.len(), 0);
            assert_eq!(doc.column_count(), 0);
        }
    }
}

#[test]
fn rejected_line_leaves_document_unchanged() {
    let mut doc = ParsedPartialFile::new();
    ingest_line(&mut doc, FileParsers::Csv, "a,b");
    let before_len = doc.len();
    let before_widths = doc.column_max_char_counts().clone();
    let outcome = ingest_line(&mut doc, FileParsers::Csv, "# just a comment");
    assert_eq!(outcome, IngestOutcome::Rejected);
    assert_eq!(doc.len(), before_len);
    assert_eq!(doc.column_max_char_counts(), &before_widths);
}

#[test]
fn live_flag_starts_live_and_closes_once() {
    let mut flag = LiveFlag::new();
    assert!(flag.is_live());
    flag.close();
    assert!(!flag.is_live());
}
