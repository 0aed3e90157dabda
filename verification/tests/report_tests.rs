use cruft_crawler::decode::Decision;
use cruft_crawler::graph::DecisionRecord;
use cruft_crawler::report::{
    decision_to_str, default_size, field_is_clean, load_llm_report_tsv, render_llm_report,
    ReportError,
};

#[test]
fn render_has_header_and_one_row_per_decision() {
    let rows = vec![
        DecisionRecord { id: 0, path: "a.txt".to_string(), decision: Decision::Keep },
        DecisionRecord { id: 1, path: "b/c.log".to_string(), decision: Decision::Delete },
        DecisionRecord { id: 2, path: "d.tmp".to_string(), decision: Decision::FallbackKeep },
    ];
    let text = render_llm_report(&rows);
    assert_eq!(text, "id\tpath\tdecision\n0\ta.txt\tkeep\n1\tb/c.log\tdelete\n2\td.tmp\tkeep\n");
}

#[test]
fn render_of_nothing_is_just_the_header() {
    let rows: Vec<DecisionRecord> = Vec::new();
    assert_eq!(render_llm_report(&rows), "id\tpath\tdecision\n");
}

#[test]
fn decision_text() {
    assert_eq!(decision_to_str(Decision::Keep), "keep");
    assert_eq!(decision_to_str(Decision::FallbackKeep), "keep");
    assert_eq!(decision_to_str(Decision::Delete), "delete");
}

#[test]
fn clean_fields() {
    assert!(field_is_clean("plain/path.txt"));
    assert!(!field_is_clean("has\ttab"));
    assert!(!field_is_clean("has\nnewline"));
    assert!(!field_is_clean("has\rreturn"));
    assert!(field_is_clean(""));
}

#[test]
fn report_round_trip() {
    let rows = vec![
        DecisionRecord { id: 7, path: "x/y.bin".to_string(), decision: Decision::Delete },
        DecisionRecord { id: 8, path: "z.txt".to_string(), decision: Decision::Keep },
    ];
    let text = render_llm_report(&rows);
    let parsed = load_llm_report_tsv(text.as_bytes()).unwrap();
    assert_eq!(parsed.len(), 2);
    assert_eq!(parsed[0].id, "7");
    assert_eq!(parsed[0].path, "x/y.bin");
    assert_eq!(parsed[0].size, "\u{2014}");
    assert_eq!(parsed[1].id, "8");
    assert_eq!(parsed[1].path, "z.txt");
}

#[test]
fn columns_are_mapped_by_header_name() {
    let content = b"path\tid\np.txt\t42\n";
    let parsed = load_llm_report_tsv(content).unwrap();
    assert_eq!(parsed.len(), 1);
    assert_eq!(parsed[0].id, "42");
    assert_eq!(parsed[0].path, "p.txt");
}

#[test]
fn size_column_is_read_when_present() {
    let parsed = load_llm_report_tsv(b"id\tpath\tsize\n1\tb.txt\t500\n").unwrap();
    assert_eq!(parsed[0].size, "500");
}

#[test]
fn blank_size_becomes_the_placeholder() {
    let parsed = load_llm_report_tsv(b"id\tpath\tsize\n1\tb.txt\t  \n").unwrap();
    assert_eq!(parsed[0].size, default_size());
    assert_eq!(parsed[0].size, "\u{2014}");
}

#[test]
fn missing_key_column_is_an_error() {
    assert_eq!(load_llm_report_tsv(b"id\tsize\n1\t2\n").unwrap_err(), ReportError::MissingColumn);
    assert_eq!(
        load_llm_report_tsv(b"path\tsize\na\t2\n").unwrap_err(),
        ReportError::MissingColumn
    );
}

#[test]
fn uneven_row_is_an_error() {
    assert_eq!(
        load_llm_report_tsv(b"id\tpath\n1\ta.txt\textra\n").unwrap_err(),
        ReportError::UnequalRow
    );
    assert_eq!(load_llm_report_tsv(b"id\tpath\n1\n").unwrap_err(), ReportError::UnequalRow);
}

#[test]
fn blank_paths_are_skipped() {
    let parsed = load_llm_report_tsv(b"id\tpath\n1\t  \n2\tc.txt\n").unwrap();
    assert_eq!(parsed.len(), 1);
    assert_eq!(parsed[0].id, "2");
    assert_eq!(parsed[0].path, "c.txt");
}

#[test]
fn header_only_and_empty_inputs() {
    assert_eq!(load_llm_report_tsv(b"").unwrap().len(), 0);
    assert_eq!(load_llm_report_tsv(b"\n\n").unwrap().len(), 0);
    assert_eq!(load_llm_report_tsv(b"id\tpath\n").unwrap().len(), 0);
}

#[test]
fn carriage_returns_are_accepted() {
    let parsed = load_llm_report_tsv(b"id\tpath\r\n3\tz.txt\r\n").unwrap();
    assert_eq!(parsed.len(), 1);
    assert_eq!(parsed[0].id, "3");
    assert_eq!(parsed[0].path, "z.txt");
}

#[test]
fn blank_lines_are_skipped() {
    let parsed = load_llm_report_tsv(b"\nid\tpath\n\n4\tq.txt\n\n").unwrap();
    assert_eq!(parsed.len(), 1);
    assert_eq!(parsed[0].id, "4");
}
