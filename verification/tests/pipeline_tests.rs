use dup_file_finder::change_filter::ScanDecision;
use dup_file_finder::pipeline::{Catalog, ProcessOutcome};

fn s(x: &str) -> String {
    String::from(x)
}

/// Scenario: A="hello", B="hello", C="world", all equal size, A and B equal
/// content. Two hash rows, three file rows, one duplicate group {A, B} of
/// member count 2; after deleting A from disk and reconciling, the index
/// drops A's row and the report is empty.
#[test]
fn scenario_three_files() {
    let mut c = Catalog::new();
    let a = s("/t/a");
    let b = s("/t/b");
    let cc = s("/t/c");
    assert_eq!(c.process_file(&a, 5, 100, b"hello"), ProcessOutcome::Indexed);
    assert_eq!(c.process_file(&b, 5, 101, b"hello"), ProcessOutcome::Indexed);
    assert_eq!(c.process_file(&cc, 5, 102, b"world"), ProcessOutcome::Indexed);

    assert_eq!(c.hashes().len(), 2);
    assert_eq!(c.files().len(), 3);

    let rows = dup_file_finder::dup_query::duplicate_report(&c);
    assert_eq!(rows.len(), 2);
    assert_eq!(rows[0].path, "/t/a");
    assert_eq!(rows[1].path, "/t/b");
    assert_eq!(rows[0].member_count, 2);
    assert_eq!(rows[1].member_count, 2);
    assert_eq!(rows[0].hash_id, rows[1].hash_id);
    assert_eq!(rows[0].content_size, 5);

    // A disappears from disk; reconciliation drops exactly its row.
    let live = vec![s("/t/b"), s("/t/c")];
    c.reconcile(&live);
    assert_eq!(c.files().len(), 2);
    assert_eq!(c.files().row(0).path, "/t/b");
    assert_eq!(c.files().row(1).path, "/t/c");
    // B's group now has a single member: no group is reported.
    let rows = dup_file_finder::dup_query::duplicate_report(&c);
    assert_eq!(rows.len(), 0);
    // hash rows are never deleted by reconciliation
    assert_eq!(c.hashes().len(), 2);
}

/// Idempotence: rescanning an unchanged file decides SKIP and writes nothing.
#[test]
fn second_scan_skips() {
    let mut c = Catalog::new();
    let p = s("/t/file");
    assert_eq!(c.process_file(&p, 4, 7, b"data"), ProcessOutcome::Indexed);
    assert_eq!(c.decision(&p, 4, 7), ScanDecision::Skip);
    assert_eq!(c.process_file(&p, 4, 7, b"data"), ProcessOutcome::Skipped);
    assert_eq!(c.hashes().len(), 1);
    assert_eq!(c.files().len(), 1);
}

/// A changed modification time or size forces a re-hash of the same path,
/// overwriting the row in place.
#[test]
fn changed_metadata_rehashes() {
    let mut c = Catalog::new();
    let p = s("/t/file");
    assert_eq!(c.process_file(&p, 4, 7, b"data"), ProcessOutcome::Indexed);
    assert_eq!(c.decision(&p, 4, 8), ScanDecision::Process);
    assert_eq!(c.process_file(&p, 5, 8, b"datum"), ProcessOutcome::Indexed);
    // same path: still one file row, updated in place
    assert_eq!(c.files().len(), 1);
    let rec = c.files().row(0);
    assert_eq!(rec.size, 5);
    assert_eq!(rec.modified_time, 8);
    // the old hash row is orphaned, not deleted
    assert_eq!(c.hashes().len(), 2);
}

/// Content-addressing: byte-identical content of equal size resolves to the
/// same hash identifier, from distinct paths.
#[test]
fn equal_content_shares_hash_id() {
    let mut c = Catalog::new();
    let p1 = s("/x/one");
    let p2 = s("/y/two");
    c.process_file(&p1, 3, 1, b"abc");
    c.process_file(&p2, 3, 99, b"abc");
    assert_eq!(c.hashes().len(), 1);
    assert_eq!(c.files().len(), 2);
    assert_eq!(c.files().row(0).hash_id, c.files().row(1).hash_id);
}

/// Zero-size exclusion: a zero-length file produces no row of either kind.
#[test]
fn zero_size_file_is_skipped() {
    let mut c = Catalog::new();
    let p = s("/t/empty");
    assert_eq!(c.process_file(&p, 0, 5, b""), ProcessOutcome::Skipped);
    assert_eq!(c.hashes().len(), 0);
    assert_eq!(c.files().len(), 0);
}

/// A singleton group never appears in the report.
#[test]
fn singleton_never_reported() {
    let mut c = Catalog::new();
    let p = s("/t/only");
    c.process_file(&p, 5, 1, b"alone");
    let rows = dup_file_finder::dup_query::duplicate_report(&c);
    assert_eq!(rows.len(), 0);
}

/// The report is ordered by path ascending, whatever the scan order was.
#[test]
fn report_sorted_by_path() {
    let mut c = Catalog::new();
    for (p, m) in [("/z", 1u64), ("/a", 2), ("/m", 3), ("/b", 4)] {
        let path = s(p);
        c.process_file(&path, 4, m, b"same");
    }
    let rows = dup_file_finder::dup_query::duplicate_report(&c);
    assert_eq!(rows.len(), 4);
    let paths: Vec<&str> = rows.iter().map(|r| r.path.as_str()).collect();
    assert_eq!(paths, vec!["/a", "/b", "/m", "/z"]);
    for r in &rows {
        assert_eq!(r.member_count, 4);
    }
}

/// Reconciliation removes exactly the dead rows and leaves the live ones
/// untouched, in order.
#[test]
fn reconcile_removes_exactly_dead() {
    let mut c = Catalog::new();
    let names = ["/d/1", "/d/2", "/d/3", "/d/4", "/d/5"];
    for (i, p) in names.iter().enumerate() {
        let path = s(p);
        let content = format!("content {}", i);
        c.process_file(&path, content.len() as u64, i as u64, content.as_bytes());
    }
    assert_eq!(c.files().len(), 5);
    let live = vec![s("/d/1"), s("/d/3"), s("/d/5")];
    c.reconcile(&live);
    assert_eq!(c.files().len(), 3);
    assert_eq!(c.files().row(0).path, "/d/1");
    assert_eq!(c.files().row(1).path, "/d/3");
    assert_eq!(c.files().row(2).path, "/d/5");
}
