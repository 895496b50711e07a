use usbsas_core::scan::{plan, DirEntry, Node, ScanOutcome, Step, Unpacked};
use usbsas_core::table::Entry;
use usbsas_core::tracker::{
    accepted_label, JobStatus, JobTracker, Outcome, PollReply, Verdict, REPORT_VERSION,
};

fn sorted(files: Vec<Entry<Verdict>>) -> Vec<(String, Verdict)> {
    let mut v: Vec<(String, Verdict)> = files.into_iter().map(|e| (e.key, e.value)).collect();
    v.sort_by(|a, b| a.0.cmp(&b.0));
    v
}

fn file(name: &str) -> DirEntry {
    DirEntry { name: name.to_string(), node: Node::File }
}

fn link(name: &str) -> DirEntry {
    DirEntry { name: name.to_string(), node: Node::Symlink }
}

/// Runs the analysis of `bundle` for job `id`, asking `oracle` for each file
/// that the plan sends to the scanner.
fn analyze(
    tracker: &mut JobTracker,
    id: &String,
    bundle: &Unpacked,
    oracle: fn(&str) -> ScanOutcome,
) -> Vec<String> {
    let mut scanned: Vec<String> = Vec::new();
    let p = plan(bundle, "/work/job");
    for step in p.steps {
        match step {
            Step::Record { relative, verdict } => tracker.record(id, relative, verdict),
            Step::Scan { file, relative } => {
                let outcome = oracle(&file);
                scanned.push(file);
                tracker.record_scan(id, relative, outcome);
            }
        }
    }
    tracker.finish(id, p.outcome);
    scanned
}

#[test]
fn unknown_job_is_not_found() {
    let mut t = JobTracker::new();
    assert_eq!(t.poll(&"nope".to_string()), PollReply::NotFound);
    assert!(!t.contains(&"nope".to_string()));
    assert_eq!(t.status(&"nope".to_string()), None);
}

#[test]
fn poll_before_completion_shows_no_files() {
    let mut t = JobTracker::new();
    let id = "job1".to_string();
    t.submit(id.clone());
    t.record(&id, "a.txt".to_string(), Verdict::Clean);
    for _ in 0..3 {
        assert_eq!(
            t.poll(&id),
            PollReply::Pending { id: id.clone(), status: JobStatus::Processing }
        );
    }
    assert!(t.contains(&id));
    assert_eq!(t.status(&id), Some(JobStatus::Processing));
}

#[test]
fn terminal_report_is_handed_out_once() {
    let mut t = JobTracker::new();
    let id = "job1".to_string();
    t.submit(id.clone());
    t.record(&id, "a.txt".to_string(), Verdict::Clean);
    t.finish(&id, Outcome::Scanned);
    assert_eq!(t.status(&id), Some(JobStatus::Scanned));
    match t.poll(&id) {
        PollReply::Report { id: rid, status, version, files } => {
            assert_eq!(rid, id);
            assert_eq!(status, JobStatus::Scanned);
            assert_eq!(version, 2);
            assert_eq!(version, REPORT_VERSION);
            assert_eq!(sorted(files), vec![("a.txt".to_string(), Verdict::Clean)]);
        }
        other => panic!("expected a report, got {:?}", other),
    }
    assert_eq!(t.poll(&id), PollReply::NotFound);
    assert_eq!(t.poll(&id), PollReply::NotFound);
    assert!(!t.contains(&id));
}

#[test]
fn poll_leaves_other_jobs_alone() {
    let mut t = JobTracker::new();
    let a = "a".to_string();
    let b = "b".to_string();
    t.submit(a.clone());
    t.submit(b.clone());
    t.record(&b, "x".to_string(), Verdict::Dirty);
    t.finish(&a, Outcome::Error);
    match t.poll(&a) {
        PollReply::Report { status, files, .. } => {
            assert_eq!(status, JobStatus::Error);
            assert!(files.is_empty());
        }
        other => panic!("expected a report, got {:?}", other),
    }
    assert_eq!(t.poll(&b), PollReply::Pending { id: b.clone(), status: JobStatus::Processing });
    t.finish(&b, Outcome::Scanned);
    match t.poll(&b) {
        PollReply::Report { files, .. } => {
            assert_eq!(sorted(files), vec![("x".to_string(), Verdict::Dirty)]);
        }
        other => panic!("expected a report, got {:?}", other),
    }
}

#[test]
fn a_later_verdict_for_the_same_path_replaces_the_earlier() {
    let mut t = JobTracker::new();
    let id = "j".to_string();
    t.submit(id.clone());
    t.record(&id, "f".to_string(), Verdict::Clean);
    t.record(&id, "g".to_string(), Verdict::Clean);
    t.record(&id, "f".to_string(), Verdict::Dirty);
    t.finish(&id, Outcome::Scanned);
    match t.poll(&id) {
        PollReply::Report { files, .. } => {
            assert_eq!(
                sorted(files),
                vec![("f".to_string(), Verdict::Dirty), ("g".to_string(), Verdict::Clean)]
            );
        }
        other => panic!("expected a report, got {:?}", other),
    }
}

#[test]
fn submitting_again_under_the_same_id_starts_over() {
    let mut t = JobTracker::new();
    let id = "j".to_string();
    t.submit(id.clone());
    t.record(&id, "f".to_string(), Verdict::Dirty);
    t.finish(&id, Outcome::Scanned);
    t.submit(id.clone());
    assert_eq!(t.poll(&id), PollReply::Pending { id: id.clone(), status: JobStatus::Processing });
    t.finish(&id, Outcome::Scanned);
    match t.poll(&id) {
        PollReply::Report { files, .. } => assert!(files.is_empty()),
        other => panic!("expected a report, got {:?}", other),
    }
}

#[test]
fn scenario_clean_flagged_and_symlink() {
    let mut t = JobTracker::new();
    let id = "bundle".to_string();
    t.submit(id.clone());
    let bundle = Unpacked::Tree(vec![file("a.txt"), file("b.exe"), link("c")]);
    fn oracle(path: &str) -> ScanOutcome {
        if path.ends_with("b.exe") {
            ScanOutcome::Virus
        } else {
            ScanOutcome::Clean
        }
    }
    let scanned = analyze(&mut t, &id, &bundle, oracle);
    assert_eq!(scanned, vec!["/work/job/a.txt".to_string(), "/work/job/b.exe".to_string()]);
    match t.poll(&id) {
        PollReply::Report { id: rid, status, version, files } => {
            assert_eq!(rid, "bundle");
            assert_eq!(status, JobStatus::Scanned);
            assert_eq!(status.label(), "scanned");
            assert_eq!(version, 2);
            let files = sorted(files);
            assert_eq!(
                files,
                vec![
                    ("a.txt".to_string(), Verdict::Clean),
                    ("b.exe".to_string(), Verdict::Dirty),
                    ("c".to_string(), Verdict::Clean),
                ]
            );
            let labels: Vec<&str> = files.iter().map(|f| f.1.label()).collect();
            assert_eq!(labels, vec!["CLEAN", "DIRTY", "CLEAN"]);
        }
        other => panic!("expected a report, got {:?}", other),
    }
    assert_eq!(t.poll(&id), PollReply::NotFound);
}

#[test]
fn scenario_not_an_archive() {
    let mut t = JobTracker::new();
    let id = "junk".to_string();
    t.submit(id.clone());
    fn oracle(_path: &str) -> ScanOutcome {
        panic!("nothing is there to scan")
    }
    let scanned = analyze(&mut t, &id, &Unpacked::Failed, oracle);
    assert!(scanned.is_empty());
    match t.poll(&id) {
        PollReply::Report { id: rid, status, version, files } => {
            assert_eq!(rid, "junk");
            assert_eq!(status, JobStatus::Error);
            assert_eq!(status.label(), "error");
            assert_eq!(version, 2);
            assert!(files.is_empty());
        }
        other => panic!("expected a report, got {:?}", other),
    }
    assert_eq!(t.poll(&id), PollReply::NotFound);
}

#[test]
fn a_file_that_cannot_be_scanned_is_dirty_whatever_the_others_are() {
    let mut t = JobTracker::new();
    let id = "j".to_string();
    t.submit(id.clone());
    t.record_scan(&id, "ok".to_string(), ScanOutcome::Clean);
    t.record_scan(&id, "broken".to_string(), ScanOutcome::Failed);
    t.record_scan(&id, "listed".to_string(), ScanOutcome::Whitelisted);
    t.record_scan(&id, "bad".to_string(), ScanOutcome::Virus);
    t.finish(&id, Outcome::Scanned);
    match t.poll(&id) {
        PollReply::Report { files, .. } => {
            assert_eq!(
                sorted(files),
                vec![
                    ("bad".to_string(), Verdict::Dirty),
                    ("broken".to_string(), Verdict::Dirty),
                    ("listed".to_string(), Verdict::Clean),
                    ("ok".to_string(), Verdict::Clean),
                ]
            );
        }
        other => panic!("expected a report, got {:?}", other),
    }
}

#[test]
fn statuses_and_verdicts_have_their_words() {
    assert_eq!(JobStatus::Processing.label(), "processing");
    assert_eq!(JobStatus::Scanned.label(), "scanned");
    assert_eq!(JobStatus::Error.label(), "error");
    assert!(!JobStatus::Processing.is_terminal());
    assert!(JobStatus::Scanned.is_terminal());
    assert!(JobStatus::Error.is_terminal());
    assert_eq!(Outcome::Scanned.to_status(), JobStatus::Scanned);
    assert_eq!(Outcome::Error.to_status(), JobStatus::Error);
    assert_eq!(Verdict::Clean.label(), "CLEAN");
    assert_eq!(Verdict::Dirty.label(), "DIRTY");
    assert_eq!(accepted_label(), "uploaded");
}
