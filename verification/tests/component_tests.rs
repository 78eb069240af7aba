use dup_file_finder::change_filter::{change_decision, ScanDecision};
use dup_file_finder::hashing::{digest_of_bytes, ContentHasher, CHUNK_SIZE};
use dup_file_finder::hexcode::digest_hex;
use dup_file_finder::path_order::str_le;
use dup_file_finder::records::FileRecord;
use dup_file_finder::scheduler::{AdmitOutcome, RunError, Scheduler, TaskError};
use dup_file_finder::walk::{has_ignore_dir, walk_step, WalkStep};

fn s(x: &str) -> String {
    String::from(x)
}

#[test]
fn change_filter_policy() {
    // no prior row: process (unless empty)
    assert_eq!(change_decision(None, 10, 5), ScanDecision::Process);
    // zero-size: always skip
    assert_eq!(change_decision(None, 0, 5), ScanDecision::Skip);
    let prior = FileRecord { id: 1, path: s("/p"), size: 10, modified_time: 5, hash_id: 1 };
    // bit-identical metadata: skip
    assert_eq!(change_decision(Some(&prior), 10, 5), ScanDecision::Skip);
    // any difference forces a re-hash
    assert_eq!(change_decision(Some(&prior), 11, 5), ScanDecision::Process);
    assert_eq!(change_decision(Some(&prior), 10, 6), ScanDecision::Process);
}

#[test]
fn digest_hex_is_fixed_width_lowercase() {
    assert_eq!(digest_hex(0), "0000000000000000");
    assert_eq!(digest_hex(0x1234abcd), "000000001234abcd");
    assert_eq!(digest_hex(u64::MAX), "ffffffffffffffff");
    assert_eq!(digest_hex(0xDEADBEEF00C0FFEE), "deadbeef00c0ffee");
}

/// The streamed digest agrees with the hashing crate's one-shot entry
/// point, so the wrapper really feeds every chunk through the checksum.
#[test]
fn digest_matches_oneshot() {
    let data = b"hello world, duplicate finder";
    assert_eq!(digest_of_bytes(data), twox_hash::XxHash3_64::oneshot(data));
    assert_ne!(digest_of_bytes(b"hello"), twox_hash::XxHash3_64::oneshot(b"world"));
}

/// Feeding the same bytes in uneven chunks gives the digest of the whole.
#[test]
fn streaming_is_chunk_invariant() {
    let mut data = Vec::new();
    for i in 0..(3 * CHUNK_SIZE + 17) {
        data.push((i % 251) as u8);
    }
    let whole = digest_of_bytes(&data);
    let mut h = ContentHasher::new();
    h.write(&data[..10]);
    h.write(&data[10..CHUNK_SIZE + 1]);
    h.write(&data[CHUNK_SIZE + 1..]);
    assert_eq!(h.finish(), whole);
    assert_eq!(whole, twox_hash::XxHash3_64::oneshot(&data));
}

#[test]
fn ignore_dirs_matched_by_component() {
    let ignore = vec![s(".git"), s("node_modules")];
    let hit = vec![s("repo"), s(".git"), s("objects")];
    let miss = vec![s("repo"), s("src"), s("main.rs")];
    let partial = vec![s("repo"), s(".github")];
    assert!(has_ignore_dir(&hit, &ignore));
    assert!(!has_ignore_dir(&miss, &ignore));
    // matched by exact component name, not by prefix
    assert!(!has_ignore_dir(&partial, &ignore));
    assert!(!has_ignore_dir(&vec![], &ignore));
}

#[test]
fn walk_step_order() {
    assert_eq!(walk_step(true, false, true), WalkStep::Halt);
    assert_eq!(walk_step(true, true, false), WalkStep::Halt);
    assert_eq!(walk_step(false, true, true), WalkStep::SkipEntry);
    assert_eq!(walk_step(false, false, true), WalkStep::HashFile);
    assert_eq!(walk_step(false, false, false), WalkStep::TraverseOnly);
}

/// Backpressure: with cap K, exactly K tasks are admitted before the
/// scheduler demands a completion.
#[test]
fn backpressure_at_cap() {
    let mut sch = Scheduler::new(2);
    assert_eq!(sch.try_admit(), AdmitOutcome::Dispatched);
    assert_eq!(sch.try_admit(), AdmitOutcome::Dispatched);
    assert_eq!(sch.try_admit(), AdmitOutcome::AtCapacity);
    sch.task_completed(None);
    assert_eq!(sch.try_admit(), AdmitOutcome::Dispatched);
    assert_eq!(sch.try_admit(), AdmitOutcome::AtCapacity);
    sch.task_completed(None);
    sch.task_completed(None);
    assert_eq!(sch.run_result(), Ok(()));
}

/// Fail-fast: the first failing task cancels the run, no later file is
/// dispatched, and the first error is the run's terminal error.
#[test]
fn fail_fast_on_first_error() {
    let mut sch = Scheduler::new(3);
    assert_eq!(sch.try_admit(), AdmitOutcome::Dispatched);
    assert_eq!(sch.try_admit(), AdmitOutcome::Dispatched);
    sch.task_completed(Some(TaskError::Io));
    // no new work after the flag is observed set
    assert_eq!(sch.try_admit(), AdmitOutcome::Draining);
    // the still-in-flight task drains, its later error never displaces the first
    sch.task_completed(Some(TaskError::Persistence));
    assert_eq!(sch.try_admit(), AdmitOutcome::Draining);
    assert_eq!(sch.run_result(), Err(RunError::Cancelled(TaskError::Io)));
}

/// An explicit stop with no failing task ends the run as stopped, not as a
/// task failure.
#[test]
fn explicit_stop() {
    let mut sch = Scheduler::new(1);
    assert_eq!(sch.try_admit(), AdmitOutcome::Dispatched);
    sch.request_stop();
    assert_eq!(sch.try_admit(), AdmitOutcome::Draining);
    sch.task_completed(None);
    assert_eq!(sch.run_result(), Err(RunError::Stopped));
}

#[test]
fn path_order_is_lexicographic() {
    assert!(str_le("", "a"));
    assert!(str_le("a", "a"));
    assert!(str_le("a", "b"));
    assert!(!str_le("b", "a"));
    assert!(str_le("abc", "abd"));
    assert!(str_le("ab", "abc"));
    assert!(!str_le("abc", "ab"));
    assert!(str_le("/a/b", "/a/c"));
}
