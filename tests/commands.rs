use kdbg::aggregate::{aggregate, PodRef, PALETTE_SIZE};
use kdbg::commands::{
    after_shell_attempt, classify_phase, context_rows, count_phases, first_shell_attempt,
    plugin_file_name, plugin_names, source_label, trimmed, ContextRow, Phase, PhaseCounts,
    ShellAttempt, ShellStep,
};
use kdbg::kubectl::{
    current_context_args, debug_args, debug_pod_name, describe_args, events_args, exec_args,
    forward_args, get_contexts_args, logs_args, pods_query_args, request_args, restart_args,
    top_args, use_context_args, dashboard_logs_args,
};
use kdbg::pods::{
    entry_age, locate_pod, parse_document, pod_entries, resolve_pods, select_matches, DocumentError, FindError,
    PodEntry, PodFields,
};

fn entry(name: Option<&str>, ns: Option<&str>, phase: Option<&str>) -> PodEntry {
    PodEntry {
        name: name.map(|s| s.to_string()),
        namespace: ns.map(|s| s.to_string()),
        phase: phase.map(|s| s.to_string()),
        restarts: None,
        created: None,
    }
}

fn pr(name: &str, ns: &str) -> PodRef {
    PodRef { name: name.to_string(), namespace: ns.to_string() }
}

#[test]
fn query_arguments() {
    assert_eq!(pods_query_args(&None), vec!["get", "pods", "--all-namespaces", "-o", "json"]);
    assert_eq!(pods_query_args(&Some("dev".to_string())), vec!["get", "pods", "-n", "dev", "-o", "json"]);
    assert_eq!(top_args(&None), vec!["top", "pods", "--all-namespaces"]);
    assert_eq!(top_args(&Some("x".to_string())), vec!["top", "pods", "-n", "x"]);
}

#[test]
fn log_arguments() {
    assert_eq!(logs_args("web", "prod", 100, false), vec!["logs", "web", "-n", "prod", "--tail", "100"]);
    assert_eq!(logs_args("web", "prod", 0, true), vec!["logs", "web", "-n", "prod", "--tail", "0", "-f"]);
    assert_eq!(dashboard_logs_args("w", "p"), vec!["logs", "w", "-n", "p", "--tail=50"]);
    let a = aggregate(vec![pr("w", "p")], true, 7, PALETTE_SIZE).unwrap();
    assert_eq!(request_args(&a.requests[0]), vec!["logs", "w", "-n", "p", "--tail", "7", "-f"]);
}

#[test]
fn pod_command_arguments() {
    assert_eq!(exec_args("w", "p", "ls"), vec!["exec", "-it", "w", "-n", "p", "--", "ls"]);
    assert_eq!(describe_args("w", "p"), vec!["describe", "pod", "w", "-n", "p"]);
    assert_eq!(restart_args("w", "p"), vec!["delete", "pod", "w", "-n", "p"]);
    assert_eq!(
        events_args("w", "p"),
        vec!["get", "events", "-n", "p", "--field-selector", "involvedObject.name=w", "--sort-by", ".lastTimestamp"]
    );
    assert_eq!(forward_args("w", 8080, 80, "p"), vec!["port-forward", "w", "8080:80", "-n", "p"]);
    assert_eq!(debug_pod_name(1700000000), "debug-1700000000");
    assert_eq!(
        debug_args("debug-1", "busybox", "default"),
        vec!["run", "debug-1", "--image", "busybox", "-n", "default", "--restart=Never", "--rm", "-it", "--", "/bin/sh"]
    );
}

#[test]
fn context_arguments_and_rows() {
    assert_eq!(use_context_args("kind"), vec!["config", "use-context", "kind"]);
    assert_eq!(get_contexts_args(), vec!["config", "get-contexts", "-o", "name"]);
    assert_eq!(current_context_args(), vec!["config", "current-context"]);
    assert_eq!(
        context_rows("kind\nprod\n", "  prod\n"),
        vec![
            ContextRow { name: "kind".to_string(), current: false },
            ContextRow { name: "prod".to_string(), current: true },
        ]
    );
    assert_eq!(trimmed(" \t a b \n"), "a b");
    assert_eq!(trimmed("   "), "");
}

#[test]
fn phases_are_counted() {
    assert_eq!(classify_phase("Running"), Phase::Running);
    assert_eq!(classify_phase("Succeeded"), Phase::Succeeded);
    assert_eq!(classify_phase("running"), Phase::Other);
    let entries = vec![
        entry(Some("a"), None, Some("Running")),
        entry(Some("b"), None, Some("Pending")),
        entry(Some("c"), None, Some("Failed")),
        entry(Some("d"), None, Some("Succeeded")),
        entry(Some("e"), None, None),
        entry(Some("f"), None, Some("Running")),
    ];
    assert_eq!(count_phases(&entries), PhaseCounts { running: 2, pending: 1, failed: 1, other: 2 });
}

#[test]
fn plugins() {
    assert_eq!(plugin_file_name("hello"), "hello.sh");
    let files = vec!["a.sh".to_string(), "b.txt".to_string(), "c.sh.sh".to_string(), ".sh".to_string()];
    assert_eq!(plugin_names(&files), vec!["a", "c", ""]);
}

#[test]
fn shell_fallback() {
    let a = first_shell_attempt();
    assert_eq!(a, ShellAttempt::Bash);
    assert_eq!(a.program(), "/bin/bash");
    assert!(!a.shows_errors());
    assert_eq!(after_shell_attempt(a, true), ShellStep::Done);
    assert_eq!(after_shell_attempt(a, false), ShellStep::Try(ShellAttempt::Sh));
    assert_eq!(after_shell_attempt(ShellAttempt::Sh, false), ShellStep::Try(ShellAttempt::ShWithErrors));
    assert_eq!(ShellAttempt::ShWithErrors.program(), "/bin/sh");
    assert!(ShellAttempt::ShWithErrors.shows_errors());
    assert_eq!(after_shell_attempt(ShellAttempt::ShWithErrors, false), ShellStep::GiveUp);
}

#[test]
fn merged_line_label() {
    assert_eq!(source_label("web-1"), "[web-1]");
}

#[test]
fn pods_matched_by_substring() {
    let entries = vec![
        entry(Some("web-1"), Some("prod"), None),
        entry(Some("db"), None, None),
        entry(None, Some("x"), None),
        entry(Some("web-2"), Some("dev"), None),
    ];
    assert_eq!(select_matches(&entries, "web"), vec![pr("web-1", "prod"), pr("web-2", "dev")]);
    assert_eq!(select_matches(&entries, "db"), vec![pr("db", "default")]);
    assert_eq!(select_matches(&entries, "").len(), 4);
    assert_eq!(select_matches(&entries, "")[2], pr("unknown", "x"));
    assert_eq!(select_matches(&entries, "WEB"), Vec::<PodRef>::new());
}

#[test]
fn single_pod_lookup() {
    let entries = vec![entry(Some("web-1"), Some("prod"), None), entry(Some("web-2"), Some("dev"), None)];
    assert_eq!(locate_pod(&entries, "web-2"), Ok(pr("web-2", "dev")));
    assert_eq!(locate_pod(&entries, "api"), Err(FindError::NotFound));
    assert_eq!(
        locate_pod(&entries, "web"),
        Err(FindError::Ambiguous(vec![pr("web-1", "prod"), pr("web-2", "dev")]))
    );
}

#[test]
fn documents_are_read() {
    assert_eq!(parse_document(b"{not json").unwrap_err(), DocumentError::InvalidJson);
    let doc = parse_document(br#"{"items":[{"metadata":{"name":"web-1","namespace":"prod"}},{"metadata":{"name":"db"}}]}"#).unwrap();
    assert_eq!(resolve_pods(&doc, "web"), vec![pr("web-1", "prod")]);
    assert_eq!(pod_entries(&doc).len(), 2);
    let empty = parse_document(br#"{"kind":"List"}"#).unwrap();
    assert!(pod_entries(&empty).is_empty());
}

#[test]
fn display_fields_fill_in_defaults() {
    let e = entry(None, None, None);
    assert_eq!(
        PodFields::of_entry(&e),
        PodFields {
            name: "unknown".to_string(),
            namespace: "default".to_string(),
            status: "Unknown".to_string(),
            restarts: 0,
        }
    );
    assert_eq!(entry_age(&e, 1704067200), "unknown");
    let full = PodEntry {
        name: Some("web".to_string()),
        namespace: Some("prod".to_string()),
        phase: Some("Running".to_string()),
        restarts: Some(4),
        created: Some("2024-01-01T00:00:00Z".to_string()),
    };
    let f = PodFields::of_entry(&full);
    assert_eq!((f.name.as_str(), f.namespace.as_str(), f.status.as_str(), f.restarts), ("web", "prod", "Running", 4));
    assert_eq!(entry_age(&full, 1704067200 + 59), "59s");
    let bad = PodEntry { created: Some("soon".to_string()), ..full };
    assert_eq!(entry_age(&bad, 0), "unknown");
}

#[test]
fn document_entries_follow_items() {
    let doc = parse_document(
        br#"{"items":[{"metadata":{"name":"a","namespace":"n","creationTimestamp":"t"},
            "status":{"phase":"Pending","containerStatuses":[{"restartCount":2},{"restartCount":9}]}},
            {"metadata":{"name":7},"status":{"containerStatuses":[]}}]}"#,
    )
    .unwrap();
    let entries = pod_entries(&doc);
    assert_eq!(
        entries,
        vec![
            PodEntry {
                name: Some("a".to_string()),
                namespace: Some("n".to_string()),
                phase: Some("Pending".to_string()),
                restarts: Some(2),
                created: Some("t".to_string()),
            },
            PodEntry { name: None, namespace: None, phase: None, restarts: None, created: None },
        ]
    );
    assert!(parse_document(b"").is_err());
    assert!(parse_document(b"[]").is_ok());
}
