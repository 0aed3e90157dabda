use cruft_crawler::channel::{Channel, SendOutcome};
use cruft_crawler::decode::Decision;
use cruft_crawler::graph::{build_graph, DecisionRecord, JoinOutcome, PersistenceStage};
use cruft_crawler::metadata::{collect_records, DirEntryInfo, FileKind, FileStat, MetadataFields};
use cruft_crawler::report::{load_llm_report_tsv, render_llm_report};

fn meta(name: &str, path: &str, size: u64) -> MetadataFields {
    MetadataFields {
        file_name: name.to_string(),
        full_path: path.to_string(),
        is_file: true,
        is_dir: false,
        time_created: 100,
        last_time_modified: 200,
        last_accessed: 300,
        file_size: size,
        file_type: FileKind::File,
    }
}

fn stat_of(m: &MetadataFields) -> FileStat {
    FileStat {
        is_file: m.is_file,
        is_dir: m.is_dir,
        time_created: m.time_created,
        last_time_modified: m.last_time_modified,
        last_accessed: m.last_accessed,
        file_size: m.file_size,
        file_type: m.file_type,
    }
}

#[test]
fn end_to_end_scenario() {
    // one readable file and one entry whose stat fails
    let a = meta("a.txt", "scan/a.txt", 500);
    let entries = vec![
        DirEntryInfo {
            file_name: "a.txt".to_string(),
            full_path: "scan/a.txt".to_string(),
            stat: Some(stat_of(&a)),
        },
        DirEntryInfo {
            file_name: "ghost.bin".to_string(),
            full_path: "scan/ghost.bin".to_string(),
            stat: None,
        },
    ];
    let (records, warnings) = collect_records(entries);
    assert_eq!(records.len(), 1);
    assert_eq!(records[0], a);
    assert_eq!(warnings.len(), 1);
    assert_eq!(warnings[0], "warning: cannot stat ghost.bin");

    let mut graph = build_graph(records, warnings, vec![b"keep".to_vec()], 2);
    assert_eq!(graph.run(64), JoinOutcome::AllStopped);
    assert!(graph.all_stopped());

    let rows = graph.decisions();
    assert_eq!(rows.len(), 1);
    assert_eq!(rows[0].id, 0);
    assert_eq!(rows[0].path, "scan/a.txt");
    assert!(rows[0].decision == Decision::Keep || rows[0].decision == Decision::Delete);
    assert_eq!(rows[0].decision, Decision::Keep);

    // the skip-warning travelled the log branch to the display sink
    assert_eq!(graph.displayed().len(), 1);
    assert_eq!(graph.displayed()[0], "warning: cannot stat ghost.bin");

    // the report carries the row, and reads back with the matching key
    let report = render_llm_report(rows);
    assert_eq!(report, "id\tpath\tdecision\n0\tscan/a.txt\tkeep\n");
    let parsed = load_llm_report_tsv(report.as_bytes()).unwrap();
    assert_eq!(parsed.len(), 1);
    assert_eq!(parsed[0].id, "0");
    assert_eq!(parsed[0].path, "scan/a.txt");
}

#[test]
fn shutdown_convergence_processes_every_record() {
    let metas = vec![meta("a", "p/a", 1), meta("b", "p/b", 2), meta("c", "p/c", 3)];
    let logs = vec!["one".to_string(), "two".to_string()];
    let script = vec![b"delete".to_vec(), b"hmm".to_vec()];
    let mut graph = build_graph(metas, logs, script, 1);
    // the measure from build_graph: three rounds per item, one per stage
    let budget = 3 * 3 + 3 * 2 + 6;
    assert_eq!(graph.run(budget), JoinOutcome::AllStopped);
    let rows = graph.decisions();
    assert_eq!(rows.len(), 3);
    assert_eq!(rows[0].id, 0);
    assert_eq!(rows[0].path, "p/a");
    assert_eq!(rows[0].decision, Decision::Delete);
    assert_eq!(rows[1].id, 1);
    assert_eq!(rows[1].decision, Decision::FallbackKeep);
    // script exhausted: the conservative fallback
    assert_eq!(rows[2].id, 2);
    assert_eq!(rows[2].decision, Decision::FallbackKeep);
    assert_eq!(graph.displayed(), &vec!["one".to_string(), "two".to_string()]);
}

#[test]
fn inference_bypass_forwards_with_the_fallback() {
    let metas = vec![meta("a", "p/a", 1), meta("b", "p/b", 2)];
    let mut graph = build_graph(metas, Vec::new(), Vec::new(), 4);
    assert_eq!(graph.run(100), JoinOutcome::AllStopped);
    let rows = graph.decisions();
    assert_eq!(rows.len(), 2);
    assert!(rows.iter().all(|r| r.decision == Decision::FallbackKeep));
}

#[test]
fn too_small_a_budget_times_out() {
    let metas = vec![meta("a", "p/a", 1)];
    let mut graph = build_graph(metas, Vec::new(), Vec::new(), 1);
    assert_eq!(graph.run(0), JoinOutcome::TimedOut);
    assert!(!graph.all_stopped());
    // partial completion is acceptable: the join can be retried
    assert_eq!(graph.run(100), JoinOutcome::AllStopped);
    assert_eq!(graph.decisions().len(), 1);
}

#[test]
fn empty_pipeline_stops_quickly() {
    let mut graph = build_graph(Vec::new(), Vec::new(), Vec::new(), 1);
    assert_eq!(graph.run(6), JoinOutcome::AllStopped);
    assert_eq!(graph.decisions().len(), 0);
    assert_eq!(graph.displayed().len(), 0);
}

#[test]
fn persistence_upsert_overwrites_by_key() {
    let mut stage = PersistenceStage::new();
    let mut ch: Channel<DecisionRecord> = Channel::new(4);
    assert!(matches!(
        ch.try_send(DecisionRecord { id: 5, path: "a".to_string(), decision: Decision::Keep }),
        SendOutcome::Success
    ));
    assert!(matches!(
        ch.try_send(DecisionRecord { id: 5, path: "a".to_string(), decision: Decision::Delete }),
        SendOutcome::Success
    ));
    stage.step(&mut ch);
    stage.step(&mut ch);
    // re-insertion of an existing key overwrites, it does not duplicate
    assert_eq!(stage.rows().len(), 1);
    assert_eq!(stage.rows()[0].id, 5);
    assert_eq!(stage.rows()[0].decision, Decision::Delete);
}
