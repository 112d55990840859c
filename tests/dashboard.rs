use kdbg::aggregate::FetchOutcome;
use kdbg::dash::{get_pods, pod_row, App, PodInfo, HISTORY_LIMIT};
use kdbg::metrics::{metrics_totals, parse_cpu, parse_memory, parse_metrics, PodMetrics};
use kdbg::pods::{parse_document, pod_entries};

fn info(name: &str) -> PodInfo {
    PodInfo {
        name: name.to_string(),
        namespace: "default".to_string(),
        status: "Running".to_string(),
        restarts: 0,
        age: "1m".to_string(),
    }
}

#[test]
fn metrics_lines_are_read() {
    let text = "default web-1 250m 128Mi\nkube-system dns 1m 2Gi\nshort line\nx y zz 5Ki\n";
    let m = parse_metrics(text);
    assert_eq!(
        m,
        vec![
            PodMetrics { name: "web-1".to_string(), namespace: "default".to_string(), cpu: 250, memory: 128 * 1048576 },
            PodMetrics { name: "dns".to_string(), namespace: "kube-system".to_string(), cpu: 1, memory: 2 * 1073741824 },
            PodMetrics { name: "y".to_string(), namespace: "x".to_string(), cpu: 0, memory: 0 },
        ]
    );
    assert_eq!(metrics_totals(&m), (251, 128 * 1048576 + 2 * 1073741824));
}

#[test]
fn metrics_fields_edge_cases() {
    assert_eq!(parse_cpu("12mm"), 12);
    assert_eq!(parse_cpu("3"), 3);
    assert_eq!(parse_memory("1MiMi"), 1048576);
    assert_eq!(parse_memory("99999999999999Gi"), u64::MAX);
    assert_eq!(parse_memory("Mi"), 0);
}

#[test]
fn selection_wraps_both_ways() {
    let mut app = App::new(0);
    app.select_next();
    assert_eq!(app.selected_index(), 0);
    app.update(vec![info("a"), info("b"), info("c")], 10);
    app.select_prev();
    assert_eq!(app.selected_index(), 2);
    app.select_next();
    assert_eq!(app.selected_index(), 0);
    app.select_next();
    assert_eq!(app.selected_index(), 1);
}

#[test]
fn log_panel_follows_selection() {
    let mut app = App::new(0);
    assert_eq!(app.toggle_logs(), None);
    assert_eq!(app.toggle_logs(), None);
    app.update(vec![info("a"), info("b")], 10);
    app.select_next();
    let target = app.toggle_logs().unwrap();
    assert_eq!(target.name, "b");
    app.receive_logs(FetchOutcome::Fetched("one\ntwo\n".to_string()));
    assert_eq!(app.logs(), &vec!["one".to_string(), "two".to_string()]);
    app.receive_logs(FetchOutcome::Unavailable);
    assert_eq!(app.logs(), &vec!["Failed to fetch logs".to_string()]);
    assert_eq!(app.toggle_logs(), None);
    assert!(!app.show_logs());
}

#[test]
fn metrics_history_keeps_the_last_sixty() {
    let mut app = App::new(0);
    assert!(!app.update(Vec::new(), 1));
    assert!(app.toggle_metrics());
    assert!(app.update(Vec::new(), 2));
    for t in 0..(HISTORY_LIMIT as u64 + 5) {
        app.update_metrics(Vec::new(), t);
    }
    assert_eq!(app.history_len(), HISTORY_LIMIT);
    assert_eq!(app.latest_metrics().unwrap().timestamp, HISTORY_LIMIT as u64 + 4);
    assert!(!app.toggle_metrics());
}

#[test]
fn refresh_is_due_after_five_seconds() {
    let mut app = App::new(1000);
    assert!(!app.needs_refresh(6000));
    assert!(app.needs_refresh(6001));
    assert!(!app.needs_refresh(500));
    app.update(Vec::new(), 6001);
    assert_eq!(app.last_update(), 6001);
    assert!(!app.needs_refresh(6001));
}

#[test]
fn pod_rows_from_a_document() {
    let doc = parse_document(
        br#"{"items":[
            {"metadata":{"name":"web","namespace":"prod","creationTimestamp":"2024-01-01T00:00:00Z"},
             "status":{"phase":"Running","containerStatuses":[{"restartCount":3}]}},
            {"metadata":{}, "status":{}}
        ]}"#,
    )
    .unwrap();
    let rows = get_pods(&doc, 1704067200 + 7200);
    assert_eq!(rows.len(), 2);
    assert_eq!(rows[0].name, "web");
    assert_eq!(rows[0].namespace, "prod");
    assert_eq!(rows[0].status, "Running");
    assert_eq!(rows[0].restarts, 3);
    assert_eq!(rows[0].age, "2h");
    assert_eq!(rows[1].name, "unknown");
    assert_eq!(rows[1].namespace, "default");
    assert_eq!(rows[1].status, "Unknown");
    assert_eq!(rows[1].restarts, 0);
    assert_eq!(pod_entries(&doc)[1].created, None);
}

#[test]
fn pod_rows_are_padded_into_columns() {
    let p = PodInfo {
        name: "web".to_string(),
        namespace: "prod".to_string(),
        status: "Running".to_string(),
        restarts: 12,
        age: "3h".to_string(),
    };
    let expected = format!("> {:<38} {:<15} {:<10} R:12 Age:3h", "web", "prod", "Running");
    assert_eq!(pod_row(&p, true), expected);
    let long = PodInfo { name: "n".repeat(40), ..p };
    let row = pod_row(&long, false);
    assert!(row.starts_with(&format!("  {} prod", "n".repeat(40))));
}
