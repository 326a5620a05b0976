use montrs::agent::{
    active_records, find_duplicate, resolve_active_records, path_join, resolve_record, AgentManager, ErrorRecord, ErrorStatus,
    ProjectError, ReportOutcome, Timestamp,
};

fn error(file: &str, line: u32, message: &str) -> ProjectError {
    ProjectError {
        file: file.to_string(),
        line,
        column: 1,
        message: message.to_string(),
        code_context: String::new(),
        level: "Error".to_string(),
        agent_metadata: None,
    }
}

fn record(id: &str, status: ErrorStatus, e: ProjectError) -> ErrorRecord {
    ErrorRecord {
        id: id.to_string(),
        timestamp: Timestamp { secs: 1, nanos: 0 },
        version: 1,
        status,
        detail: e,
        history: Vec::new(),
    }
}

fn is_v4(id: &str) -> bool {
    let cs: Vec<char> = id.chars().collect();
    cs.len() == 36
        && cs.iter().enumerate().all(|(i, c)| {
            if i == 8 || i == 13 || i == 18 || i == 23 {
                *c == '-'
            } else {
                c.is_ascii_digit() || ('a'..='f').contains(c)
            }
        })
        && cs[14] == '4'
        && "89ab".contains(cs[19])
}

#[test]
fn paths_follow_path_join() {
    assert_eq!(path_join("/proj", ".agent"), "/proj/.agent");
    assert_eq!(path_join("/proj/", ".agent"), "/proj/.agent");
    assert_eq!(path_join("", ".agent"), ".agent");
    assert_eq!(path_join("/proj", "/abs"), "/abs");
    let m = AgentManager::new("/proj");
    assert_eq!(m.root_path(), "/proj");
    assert_eq!(m.agent_dir(), "/proj/.agent");
    assert_eq!(m.errorfiles_dir(), "/proj/.agent/errorfiles");
    let r = record("abc", ErrorStatus::Active, error("a.rs", 1, "m"));
    assert_eq!(m.record_path(&r), "/proj/.agent/errorfiles/v1/abc.json");
    let expected = std::path::Path::new("/proj").join(".agent").join("errorfiles").join("v1").join("abc.json");
    assert_eq!(m.record_path(&r), expected.to_string_lossy());
}

#[test]
fn test_error_reporting() {
    let m = AgentManager::new("/proj");
    let now = Timestamp { secs: 100, nanos: 5 };
    match m.report_error(&Vec::new(), "Something went wrong".to_string(), now) {
        ReportOutcome::Recorded(rec) => {
            assert!(is_v4(&rec.id));
            assert_eq!(rec.version, 1);
            assert_eq!(rec.status, ErrorStatus::Active);
            assert_eq!(rec.detail.file, "unknown");
            assert_eq!(rec.detail.message, "Something went wrong");
            assert_eq!(rec.detail.level, "Error");
            assert_eq!(rec.timestamp, now);
            assert!(m.record_path(&rec).starts_with("/proj/.agent/errorfiles/v1/"));
        }
        ReportOutcome::Existing(_) => panic!("nothing was tracked yet"),
    }
}

#[test]
fn duplicate_reports_return_the_tracked_id() {
    let m = AgentManager::new("/proj");
    let active = vec![
        record("first", ErrorStatus::Active, error("a.rs", 3, "boom")),
        record("second", ErrorStatus::Active, error("a.rs", 3, "boom")),
    ];
    assert_eq!(find_duplicate(&active, &error("a.rs", 3, "boom")), Some("first".to_string()));
    assert_eq!(find_duplicate(&active, &error("a.rs", 4, "boom")), None);
    match m.report_project_error(&active, error("a.rs", 3, "boom"), Timestamp { secs: 0, nanos: 0 }) {
        ReportOutcome::Existing(id) => assert_eq!(id, "first"),
        ReportOutcome::Recorded(_) => panic!("duplicate must not be recorded"),
    }
    let ids: Vec<String> = (0..3)
        .map(|_| match m.report_project_error(&active, error("b.rs", 1, "x"), Timestamp { secs: 0, nanos: 0 }) {
            ReportOutcome::Recorded(r) => r.id,
            ReportOutcome::Existing(_) => panic!("new error"),
        })
        .collect();
    assert!(ids.iter().all(|i| is_v4(i)));
    assert_ne!(ids[0], ids[1]);
}

#[test]
fn resolving_twice_changes_nothing() {
    let r0 = record("id", ErrorStatus::Active, error("a.rs", 1, "m"));
    let t1 = Timestamp { secs: 10, nanos: 0 };
    let r1 = resolve_record(r0, "fixed".to_string(), Some("diff".to_string()), t1);
    assert_eq!(r1.status, ErrorStatus::Resolved);
    assert_eq!(r1.version, 2);
    assert_eq!(r1.history.len(), 1);
    assert_eq!(r1.history[0].version, 1);
    assert_eq!(r1.history[0].message, "fixed");
    assert_eq!(r1.history[0].diff, Some("diff".to_string()));
    assert_eq!(r1.history[0].timestamp, t1);
    let r2 = resolve_record(r1.clone(), "again".to_string(), None, Timestamp { secs: 20, nanos: 0 });
    assert_eq!(r2.status, ErrorStatus::Resolved);
    assert_eq!(r2.version, 2);
    assert_eq!(r2.history.len(), 1);
    assert_eq!(r2.history[0].message, "fixed");
}

#[test]
fn only_active_records_are_kept() {
    let rs = vec![
        record("a", ErrorStatus::Active, error("a.rs", 1, "m")),
        record("b", ErrorStatus::Resolved, error("b.rs", 1, "m")),
        record("c", ErrorStatus::Active, error("c.rs", 1, "m")),
    ];
    let ids: Vec<String> = active_records(rs).into_iter().map(|r| r.id).collect();
    assert_eq!(ids, vec!["a".to_string(), "c".to_string()]);
}


#[test]
fn auto_resolution_resolves_only_active_records() {
    let rs = vec![
        record("a", ErrorStatus::Active, error("a.rs", 1, "m")),
        record("b", ErrorStatus::Resolved, error("b.rs", 1, "m")),
    ];
    let out = resolve_active_records(rs, "Build/Command succeeded", &None, Timestamp { secs: 9, nanos: 0 });
    assert_eq!(out.len(), 1);
    assert_eq!(out[0].id, "a");
    assert_eq!(out[0].status, ErrorStatus::Resolved);
    assert_eq!(out[0].version, 2);
    assert_eq!(out[0].history[0].message, "Build/Command succeeded");
    assert_eq!(out[0].history[0].diff, None);
}

#[test]
fn a_recorded_error_is_found_again() {
    let m = AgentManager::new("/p");
    let mut active: Vec<ErrorRecord> = Vec::new();
    let first = match m.report_project_error(&active, error("x.rs", 2, "bad"), Timestamp { secs: 0, nanos: 0 }) {
        ReportOutcome::Recorded(r) => r,
        ReportOutcome::Existing(_) => panic!(),
    };
    let id = first.id.clone();
    active.push(first);
    match m.report_project_error(&active, error("x.rs", 2, "bad"), Timestamp { secs: 1, nanos: 0 }) {
        ReportOutcome::Existing(again) => assert_eq!(again, id),
        ReportOutcome::Recorded(_) => panic!("the error is already tracked"),
    }
}
