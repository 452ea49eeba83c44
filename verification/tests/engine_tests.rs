use vulncanix::engine::build_candidates;
use vulncanix::engine::join_url;
use vulncanix::engine::passes_filters;
use vulncanix::engine::ScanEngine;
use vulncanix::probe::FailureReason;
use vulncanix::probe::ProbeOutcome;
use vulncanix::probe::ScanResult;
use vulncanix::probe::TransportFailure;
use vulncanix::scheduler::Scheduler;

fn owned(words: &[&str]) -> Vec<String> {
    words.iter().map(|w| w.to_string()).collect()
}

fn response(url: &str, status: u16, hash: &str, latency: u128) -> ProbeOutcome {
    ProbeOutcome::Response(ScanResult {
        url: url.to_string(),
        status_code: status,
        content_length: 100,
        response_time: latency,
        server_header: None,
        header_loc: None,
        content_type: None,
        content_hash: hash.to_string(),
    })
}

fn failure(url: &str) -> ProbeOutcome {
    ProbeOutcome::Failure(TransportFailure {
        url: url.to_string(),
        reason: FailureReason::ConnectError,
    })
}

#[test]
fn candidates_without_extensions() {
    let urls = build_candidates("http://t", &owned(&["admin", "backup"]), &owned(&[]));
    assert_eq!(urls, vec!["http://t/admin".to_string(), "http://t/backup".to_string()]);
}

#[test]
fn candidates_product_with_extensions() {
    let urls = build_candidates("http://t", &owned(&["a", "b"]), &owned(&[".php", ".bak"]));
    assert_eq!(
        urls,
        vec![
            "http://t/a.php".to_string(),
            "http://t/a.bak".to_string(),
            "http://t/b.php".to_string(),
            "http://t/b.bak".to_string(),
        ]
    );
    // total = |W| * max(1, |E|)
    assert_eq!(urls.len(), 2 * 2);
}

#[test]
fn join_url_appends_suffix() {
    assert_eq!(join_url("http://t", "zq1x9"), "http://t/zq1x9".to_string());
}

#[test]
fn filter_precedence_select_wins() {
    // both filters configured: the hide filter is ignored, 403 passes
    let selected = Some(vec![200u16, 403]);
    let hide = Some(vec![403u16]);
    assert!(passes_filters(403, &selected, &hide));
    assert!(passes_filters(200, &selected, &hide));
    assert!(!passes_filters(404, &selected, &hide));
}

#[test]
fn filter_hide_alone_drops() {
    let hide = Some(vec![404u16, 400]);
    assert!(!passes_filters(404, &None, &hide));
    assert!(passes_filters(200, &None, &hide));
    assert!(passes_filters(0, &None, &None));
}

#[test]
fn scheduler_bounds_in_flight() {
    let urls = owned(&["http://t/a", "http://t/b", "http://t/c"]);
    let mut s = Scheduler::new(urls, 2);
    assert!(s.can_start());
    let first = s.start_next();
    assert_eq!(first, "http://t/a".to_string());
    assert!(s.can_start());
    let second = s.start_next();
    assert_eq!(second, "http://t/b".to_string());
    // both slots taken: nothing more may start
    assert!(!s.can_start());
    s.complete();
    assert!(s.can_start());
    let third = s.start_next();
    assert_eq!(third, "http://t/c".to_string());
    assert!(!s.can_start());
    s.complete();
    s.complete();
    assert!(s.is_finished());
    assert_eq!(s.completed_so_far(), 3);
    assert_eq!(s.total_candidates(), 3);
}

#[test]
fn calibration_collects_hashes_and_average() {
    let urls = owned(&["http://t/a"]);
    let mut e = ScanEngine::new(urls, 2, None, None);
    let outcomes = vec![
        response("http://t/zq1", 404, "basehash", 10),
        failure("http://t/zq2"),
        response("http://t/zq3", 404, "basehash", 20),
    ];
    e.calibrate(&outcomes);
    assert_eq!(e.average_calibration_latency(), 15);
    // a result matching a calibration fingerprint is suppressed
    let url = e.next_candidate();
    let out = e.process_outcome(response(&url, 200, "basehash", 5)).unwrap();
    assert!(!out.interesting);
}

#[test]
fn calibration_total_failure_degrades_to_empty_baseline() {
    let urls = owned(&["http://t/a"]);
    let mut e = ScanEngine::new(urls, 2, None, None);
    e.calibrate(&vec![failure("http://t/zq1"), failure("http://t/zq2")]);
    assert_eq!(e.average_calibration_latency(), 0);
    // no suppression is possible: a 200 with any hash is interesting
    let url = e.next_candidate();
    let out = e.process_outcome(response(&url, 200, "anything", 5)).unwrap();
    assert!(out.interesting);
    assert_eq!(e.interesting_so_far(), 1);
}

#[test]
fn transport_failure_recorded_as_zero_score_result() {
    let urls = owned(&["http://t/a"]);
    let mut e = ScanEngine::new(urls, 1, None, None);
    e.calibrate(&vec![]);
    let url = e.next_candidate();
    let out = e.process_outcome(failure(&url)).unwrap();
    assert_eq!(out.result.status_code, 0);
    assert_eq!(out.result.url, "http://t/a".to_string());
    assert_eq!(out.risk_score, 0);
    assert!(!out.interesting);
    assert!(out.indicators.is_empty());
    assert_eq!(e.requests_completed(), 1);
    assert_eq!(e.interesting_so_far(), 0);
    assert!(e.is_finished());
}

#[test]
fn select_filter_drops_unlisted_statuses() {
    let urls = owned(&["http://t/a", "http://t/b"]);
    let mut e = ScanEngine::new(urls, 2, Some(vec![200]), Some(vec![200]));
    e.calibrate(&vec![]);
    let first = e.next_candidate();
    let second = e.next_candidate();
    // 404 is not in the select list: dropped, though still counted
    assert!(e.process_outcome(response(&first, 404, "h1", 5)).is_none());
    // 200 is in both the select and hide lists: the select list wins
    assert!(e.process_outcome(response(&second, 200, "h2", 5)).is_some());
    assert_eq!(e.requests_completed(), 2);
}

// The full scan flow: three words, no extensions, concurrency 2, a stub
// server returning 403 for /admin, 200 for /backup.bak, and the baseline
// body for everything else.
#[test]
fn end_to_end_scan() {
    let target = "http://example.test";
    let words = owned(&["admin", "backup.bak", "missing123"]);
    let candidates = build_candidates(target, &words, &owned(&[]));
    assert_eq!(candidates.len(), 3);

    let stub = |url: &str| -> ProbeOutcome {
        if url.ends_with("/admin") {
            response(url, 403, "hash-admin", 4)
        } else if url.ends_with("/backup.bak") {
            response(url, 200, "hash-backup", 6)
        } else {
            response(url, 404, "hash-notfound", 2)
        }
    };

    let mut e = ScanEngine::new(candidates, 2, None, None);
    e.calibrate(&vec![
        response("http://example.test/zq1", 404, "hash-notfound", 2),
        response("http://example.test/zq2", 404, "hash-notfound", 2),
    ]);

    let mut emitted = Vec::new();
    let mut pending: Vec<String> = Vec::new();
    while !e.is_finished() {
        while e.can_start() {
            pending.push(e.next_candidate());
        }
        let url = pending.remove(0);
        if let Some(a) = e.process_outcome(stub(&url)) {
            emitted.push(a);
        }
    }

    // every candidate produced exactly one result
    assert_eq!(e.requests_completed(), 3);
    assert_eq!(emitted.len(), 3);
    assert_eq!(e.interesting_so_far(), 2);

    let admin = emitted.iter().find(|a| a.result.url.ends_with("/admin")).unwrap();
    assert!(admin.interesting);
    assert_eq!(
        admin.indicators,
        vec!["Access Forbidden".to_string(), "Admin Interface".to_string()]
    );
    assert_eq!(admin.risk_score, 10);

    let backup = emitted.iter().find(|a| a.result.url.ends_with("/backup.bak")).unwrap();
    assert!(backup.interesting);
    assert_eq!(backup.indicators, vec!["Backup File".to_string()]);
    assert_eq!(backup.risk_score, 7);

    let missing = emitted.iter().find(|a| a.result.url.ends_with("/missing123")).unwrap();
    assert!(!missing.interesting);
}
