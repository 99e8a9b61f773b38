use dende_rs::virustotal::{
    classify_error, classify_report, format_found_message, vt_score, vt_url, AnalysisStats,
    CheckResult, PollScheduler, VtReport,
};

fn stats(mal: u64, susp: u64, und: u64, harm: u64) -> AnalysisStats {
    AnalysisStats {
        malicious: mal,
        suspicious: susp,
        undetected: und,
        harmless: harm,
        timeout: 0,
        failure: 0,
        confirmed_timeout: 0,
    }
}

#[test]
fn score_sums_the_fixed_categories() {
    let s = AnalysisStats {
        malicious: 3,
        suspicious: 1,
        undetected: 40,
        harmless: 20,
        timeout: 2,
        failure: 3,
        confirmed_timeout: 1,
    };
    let (mal, total, ratio) = vt_score(&s);
    assert_eq!(mal, 3);
    assert_eq!(total, 70);
    assert_eq!(ratio, "3/70");
}

#[test]
fn score_of_empty_report_is_zero_over_zero() {
    let (mal, total, ratio) = vt_score(&stats(0, 0, 0, 0));
    assert_eq!(mal, 0);
    assert_eq!(total, 0);
    assert_eq!(ratio, "0/0");
}

fn found_report() -> VtReport {
    VtReport {
        error_present: false,
        data_present: true,
        meaningful_name: Some(String::from("payload.exe")),
        first_name: Some(String::from("other.bin")),
        sig_description: None,
        threat_label: Some(String::from("trojan.generic")),
        creation_date: Some(0),
        reputation: Some(-12),
        stats: stats(5, 0, 60, 5),
    }
}

#[test]
fn classification_error_marker_means_not_found() {
    let mut r = found_report();
    r.error_present = true;
    assert!(matches!(classify_report(&r, "aa"), CheckResult::NotFound));
    let mut r2 = found_report();
    r2.data_present = false;
    assert!(matches!(classify_report(&r2, "aa"), CheckResult::NotFound));
}

#[test]
fn classification_fills_every_field() {
    let r = classify_report(&found_report(), "deadbeef");
    match r {
        CheckResult::Found { filename, description, url, date, reputation, ratio, mal } => {
            assert_eq!(filename, "payload.exe");
            assert_eq!(description, "trojan.generic");
            assert_eq!(url, "https://www.virustotal.com/gui/file/deadbeef");
            assert_eq!(date, "1970-01-01T00:00:00+00:00");
            assert_eq!(reputation, -12);
            assert_eq!(ratio, "5/70");
            assert_eq!(mal, 5);
        },
        _ => panic!("expected a Found result"),
    }
}

#[test]
fn classification_falls_back_per_field() {
    let r = VtReport {
        error_present: false,
        data_present: true,
        meaningful_name: None,
        first_name: Some(String::from("first.bin")),
        sig_description: None,
        threat_label: None,
        creation_date: None,
        reputation: None,
        stats: stats(0, 0, 0, 0),
    };
    match classify_report(&r, "00") {
        CheckResult::Found { filename, description, date, reputation, ratio, .. } => {
            assert_eq!(filename, "first.bin");
            assert_eq!(description, "FIXME");
            assert_eq!(date, "FIXME");
            assert_eq!(reputation, 0);
            assert_eq!(ratio, "0/0");
        },
        _ => panic!("expected a Found result"),
    }
}

#[test]
fn lookup_url_names_the_hash() {
    assert_eq!(vt_url("abc123"), "https://www.virustotal.com/gui/file/abc123");
}

#[test]
fn error_text_classification() {
    assert!(matches!(classify_error("ApiError: NotFoundError"), CheckResult::NotFound));
    assert!(matches!(classify_error("status 404 returned"), CheckResult::NotFound));
    assert!(matches!(classify_error("resource not found"), CheckResult::NotFound));
    assert!(matches!(classify_error("connection reset by peer"), CheckResult::TransientError));
}

#[test]
fn scheduler_requeues_until_found_then_ends() {
    // a poll job seeded with one hash: first lookup not found, second found,
    // exactly one notification text, then the queue is empty and the job ends
    let seed = vec![String::from("e3b0c44298fc1c149afbf4c8996fb924")];
    let mut sched = PollScheduler::new(&seed);

    let h1 = sched.on_tick().expect("queue starts non-empty");
    assert_eq!(h1, seed[0]);
    let requeued = sched.on_result(h1, &CheckResult::NotFound);
    assert!(requeued);

    let h2 = sched.on_tick().expect("requeued hash comes back");
    assert_eq!(h2, seed[0]);
    let found = classify_report(&found_report(), "e3b0c44298fc1c149afbf4c8996fb924");
    let mut message = None;
    if let CheckResult::Found { filename, description, url, date, reputation, ratio, mal } = &found
    {
        message = Some(format_found_message(
            filename,
            description,
            url,
            date,
            *reputation,
            ratio,
            *mal,
        ));
    }
    let requeued2 = sched.on_result(h2, &found);
    assert!(!requeued2);
    let message = message.unwrap();
    assert!(message.contains("Detection score: 5/70 (5 engines flagged)"));

    assert!(sched.on_tick().is_none());
}

#[test]
fn transient_error_requeues_at_the_tail() {
    let seed = vec![String::from("aaaa"), String::from("bbbb")];
    let mut sched = PollScheduler::new(&seed);
    let h = sched.on_tick().unwrap();
    assert_eq!(h, "aaaa");
    sched.on_result(h, &CheckResult::TransientError);
    // the other hash is tried before the requeued one comes back
    assert_eq!(sched.on_tick().unwrap(), "bbbb");
    sched.on_result(String::from("bbbb"), &CheckResult::NotFound);
    assert_eq!(sched.on_tick().unwrap(), "aaaa");
}

#[test]
fn duplicate_hashes_are_kept_as_supplied() {
    let seed = vec![String::from("x"), String::from("x")];
    let mut sched = PollScheduler::new(&seed);
    let h = sched.on_tick().unwrap();
    sched.on_result(h, &CheckResult::Found {
        filename: String::new(),
        description: String::new(),
        url: String::new(),
        date: String::new(),
        reputation: 0,
        ratio: String::new(),
        mal: 0,
    });
    // the second copy is still pending
    assert_eq!(sched.on_tick().unwrap(), "x");
}

#[test]
fn found_message_text_is_exact() {
    let m = format_found_message(
        "a.exe",
        "trojan",
        "https://www.virustotal.com/gui/file/ff",
        "1970-01-01T00:00:00+00:00",
        -3,
        "1/2",
        1,
    );
    assert_eq!(
        m,
        "!dende-rs::virustotal-watcher::matched!\n\nFilename: a.exe\nDescription: trojan\nURL: https://www.virustotal.com/gui/file/ff\nDate: 1970-01-01T00:00:00+00:00\nCommunity reputation: -3\nDetection score: 1/2 (1 engines flagged)"
    );
}
