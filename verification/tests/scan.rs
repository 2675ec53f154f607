use gitup::lister::{choose_base_dir, filter_candidates, keep_entry, Candidate, EntryKind};
use gitup::probe::{is_clean, replay, step, Observation, ProbeEvent, ProbeState};
use gitup::render::{render_result, Paint};
use gitup::report::{Elapsed, InspectionResult};
use gitup::run::collect_results;
use gitup::text::{trim_spaces, u64_to_decimal};
use gitup::report::format_elapsed;

fn obs(
    path: &str,
    marker: bool,
    opened: bool,
    head: Option<&str>,
    pending: u64,
    output: &str,
) -> Observation {
    Observation {
        path: path.to_string(),
        marker,
        opened,
        head: head.map(|h| h.to_string()),
        pending,
        update_output: output.to_string(),
        update_elapsed: Elapsed { secs: 1, nanos: 500_000_000 },
    }
}

#[test]
fn trim_strips_surrounding_whitespace() {
    assert_eq!(trim_spaces("  Updating abc..def\n"), "Updating abc..def");
    assert_eq!(trim_spaces("\t\r\n  \t"), "");
    assert_eq!(trim_spaces(""), "");
    assert_eq!(trim_spaces("no-edges"), "no-edges");
    assert_eq!(trim_spaces(" inner  space "), "inner  space");
}

#[test]
fn decimal_rendering_is_exact() {
    assert_eq!(u64_to_decimal(0), "0");
    assert_eq!(u64_to_decimal(9), "9");
    assert_eq!(u64_to_decimal(10), "10");
    assert_eq!(u64_to_decimal(12345), "12345");
    assert_eq!(u64_to_decimal(u64::MAX), "18446744073709551615");
}

#[test]
fn elapsed_rendering_pads_nanoseconds() {
    assert_eq!(format_elapsed(Elapsed { secs: 1, nanos: 5 }), "1.000000005");
    assert_eq!(format_elapsed(Elapsed { secs: 0, nanos: 123_456_789 }), "0.123456789");
    assert_eq!(format_elapsed(Elapsed { secs: 12, nanos: 0 }), "12.000000000");
}

#[test]
fn clean_repository_reports_update_summary() {
    let r = replay(obs("base/repoA", true, true, Some("refs/heads/master"), 0, " Updating a..b\n"))
        .expect("a clean repository emits a record");
    assert_eq!(r.repo_name, "base/repoA");
    assert!(!r.is_dirty);
    assert_eq!(r.branch, "refs/heads/master");
    assert_eq!(r.message, "Updating a..b");
    assert_eq!(r.elapsed, Some(Elapsed { secs: 1, nanos: 500_000_000 }));
}

#[test]
fn dirty_repository_skips_update() {
    let r = replay(obs("base/repoB", true, true, Some("refs/heads/feature-x"), 3, "ignored"))
        .expect("a dirty repository emits a record");
    assert_eq!(r.repo_name, "base/repoB");
    assert!(r.is_dirty);
    assert_eq!(r.branch, "refs/heads/feature-x");
    assert_eq!(r.message, "");
    assert_eq!(r.elapsed, None);
}

#[test]
fn non_repository_is_silent() {
    assert!(replay(obs("base/not-a-repo", false, false, None, 0, "")).is_none());
}

#[test]
fn failed_open_is_silent() {
    assert!(replay(obs("base/corrupt", true, false, None, 0, "")).is_none());
}

#[test]
fn failed_head_read_is_silent() {
    assert!(replay(obs("base/headless", true, true, None, 0, "")).is_none());
}

#[test]
fn scenario_two_repos_one_plain_directory() {
    let results = collect_results(vec![
        obs("base/repoA", true, true, Some("refs/heads/master"), 0, "Updating a..b\n"),
        obs("base/repoB", true, true, Some("refs/heads/feature-x"), 2, ""),
        obs("base/not-a-repo", false, false, None, 0, ""),
    ]);
    assert_eq!(results.len(), 2);
    assert_eq!(results[0].repo_name, "base/repoA");
    assert!(!results[0].is_dirty);
    assert_eq!(results[0].message, "Updating a..b");
    assert_eq!(results[1].repo_name, "base/repoB");
    assert!(results[1].is_dirty);
    assert_eq!(results[1].message, "");
    assert!(results.iter().all(|r| r.repo_name != "base/not-a-repo"));
}

#[test]
fn empty_scan_emits_nothing() {
    let results = collect_results(vec![]);
    assert!(results.is_empty());
}

#[test]
fn corrupt_marker_leaves_others_reported() {
    let results = collect_results(vec![
        obs("base/ok1", true, true, Some("refs/heads/master"), 0, "x"),
        obs("base/broken", true, false, None, 0, ""),
        obs("base/ok2", true, true, Some("refs/heads/dev"), 1, ""),
    ]);
    assert_eq!(results.len(), 2);
    assert!(results.iter().all(|r| r.repo_name != "base/broken"));
    assert!(results.iter().any(|r| r.repo_name == "base/ok1"));
    assert!(results.iter().any(|r| r.repo_name == "base/ok2"));
}

#[test]
fn permuted_candidates_give_same_record_set() {
    let a = || obs("base/repoA", true, true, Some("refs/heads/master"), 0, "one\n");
    let b = || obs("base/repoB", true, true, Some("refs/heads/dev"), 4, "");
    let c = || obs("base/plain", false, false, None, 0, "");
    let forward = collect_results(vec![a(), b(), c()]);
    let backward = collect_results(vec![c(), b(), a()]);
    let mut fwd: Vec<(String, bool, String, String)> = forward
        .iter()
        .map(|r| (r.repo_name.clone(), r.is_dirty, r.branch.clone(), r.message.clone()))
        .collect();
    let mut bwd: Vec<(String, bool, String, String)> = backward
        .iter()
        .map(|r| (r.repo_name.clone(), r.is_dirty, r.branch.clone(), r.message.clone()))
        .collect();
    fwd.sort();
    bwd.sort();
    assert_eq!(fwd, bwd);
}

#[test]
fn rescan_of_unmodified_repos_classifies_alike() {
    let first = collect_results(vec![
        obs("base/repoA", true, true, Some("refs/heads/master"), 0, "run one\n"),
        obs("base/repoB", true, true, Some("refs/heads/dev"), 2, ""),
    ]);
    let second = collect_results(vec![
        obs("base/repoA", true, true, Some("refs/heads/master"), 0, "different output\n"),
        obs("base/repoB", true, true, Some("refs/heads/dev"), 2, ""),
    ]);
    assert_eq!(first.len(), second.len());
    for (r1, r2) in first.iter().zip(second.iter()) {
        assert_eq!(r1.repo_name, r2.repo_name);
        assert_eq!(r1.is_dirty, r2.is_dirty);
        assert_eq!(r1.branch, r2.branch);
    }
}

#[test]
fn machine_stops_without_marker() {
    let st = step(
        ProbeState::CheckingMarker { path: "d".to_string() },
        ProbeEvent::MarkerChecked { present: false },
    );
    assert!(matches!(st, ProbeState::Finished));
}

#[test]
fn machine_walks_dirty_protocol() {
    let mut st = ProbeState::CheckingMarker { path: "d".to_string() };
    st = step(st, ProbeEvent::MarkerChecked { present: true });
    assert!(matches!(st, ProbeState::Opening { .. }));
    st = step(st, ProbeEvent::OpenFinished { ok: true });
    assert!(matches!(st, ProbeState::ReadingHead { .. }));
    st = step(st, ProbeEvent::HeadRead { name: Some("refs/heads/dev".to_string()) });
    assert!(matches!(st, ProbeState::CheckingStatus { .. }));
    st = step(st, ProbeEvent::StatusCounted { pending: 7 });
    match st {
        ProbeState::Emitting { result } => {
            assert!(result.is_dirty);
            assert_eq!(result.repo_name, "d");
            assert_eq!(result.branch, "refs/heads/dev");
            assert_eq!(result.message, "");
            assert_eq!(result.elapsed, None);
        }
        _ => panic!("a dirty repository must emit"),
    }
}

#[test]
fn cleanliness_is_zero_pending_entries() {
    assert!(is_clean(0));
    assert!(!is_clean(1));
    assert!(!is_clean(42));
}

#[test]
fn only_directories_and_symlinks_are_candidates() {
    assert!(keep_entry(EntryKind::Directory));
    assert!(keep_entry(EntryKind::Symlink));
    assert!(!keep_entry(EntryKind::File));
    assert!(!keep_entry(EntryKind::Other));
}

#[test]
fn filtering_keeps_listing_order() {
    let kept = filter_candidates(vec![
        Candidate { path: "a".to_string(), kind: EntryKind::Directory },
        Candidate { path: "b".to_string(), kind: EntryKind::File },
        Candidate { path: "c".to_string(), kind: EntryKind::Symlink },
        Candidate { path: "d".to_string(), kind: EntryKind::Other },
        Candidate { path: "e".to_string(), kind: EntryKind::Directory },
    ]);
    assert_eq!(kept, vec!["a".to_string(), "c".to_string(), "e".to_string()]);
}

#[test]
fn base_dir_defaults_to_current_directory() {
    assert_eq!(choose_base_dir(&vec!["prog".to_string()]), ".");
    assert_eq!(
        choose_base_dir(&vec!["prog".to_string(), "/tmp/repos".to_string()]),
        "/tmp/repos"
    );
}

#[test]
fn clean_line_has_green_primary_branch_and_yellow_output() {
    let r = InspectionResult {
        repo_name: "base/repoA".to_string(),
        is_dirty: false,
        branch: "refs/heads/master".to_string(),
        message: "Updating a..b".to_string(),
        elapsed: Some(Elapsed { secs: 2, nanos: 250_000_000 }),
    };
    let segs = render_result(&r);
    assert_eq!(segs.len(), 5);
    assert_eq!(segs[0].text, "Received from base/repoA [");
    assert_eq!(segs[0].paint, Paint::Plain);
    assert_eq!(segs[1].text, "refs/heads/master");
    assert_eq!(segs[1].paint, Paint::Green);
    assert_eq!(segs[2].text, "]: ");
    assert_eq!(segs[2].paint, Paint::Plain);
    assert_eq!(segs[3].text, "Updated in 2.250000000 secs: ");
    assert_eq!(segs[3].paint, Paint::Plain);
    assert_eq!(segs[4].text, "Updating a..b");
    assert_eq!(segs[4].paint, Paint::Yellow);
}

#[test]
fn dirty_line_has_red_marker_and_cyan_branch() {
    let r = InspectionResult {
        repo_name: "base/repoB".to_string(),
        is_dirty: true,
        branch: "refs/heads/feature-x".to_string(),
        message: String::new(),
        elapsed: None,
    };
    let segs = render_result(&r);
    assert_eq!(segs.len(), 5);
    assert_eq!(segs[0].text, "**** ");
    assert_eq!(segs[0].paint, Paint::Red);
    assert_eq!(segs[1].text, "Received from base/repoB [");
    assert_eq!(segs[2].text, "refs/heads/feature-x");
    assert_eq!(segs[2].paint, Paint::Cyan);
    assert_eq!(segs[3].text, "]: ");
    assert_eq!(segs[4].text, "");
    assert_eq!(segs[4].paint, Paint::Plain);
}
