use kdbg::aggregate::{
    aggregate, assign_tags, collect_tail, AggregationError, Color, Diagnostic, DisplayTag, Emission,
    FetchOutcome, LogLine, PodRef, TaggedPod, PALETTE_SIZE,
};
use kdbg::follow::{FollowSession, ReaderState, StreamEvent};

fn pod(name: &str) -> PodRef {
    PodRef { name: name.to_string(), namespace: "default".to_string() }
}

fn batch(names: &[&str], palette: usize) -> Vec<TaggedPod> {
    let matches: Vec<PodRef> = names.iter().map(|n| pod(n)).collect();
    aggregate(matches, true, 10, palette).unwrap().pods
}

fn line(source: usize, name: &str, slot: usize, text: &str) -> Emission {
    Emission::Line(LogLine {
        source,
        pod_name: name.to_string(),
        tag: DisplayTag { slot },
        text: text.to_string(),
    })
}

fn texts_of(out: &[Emission], source: usize) -> Vec<String> {
    out.iter()
        .filter_map(|e| match e {
            Emission::Line(l) if l.source == source => Some(l.text.clone()),
            _ => None,
        })
        .collect()
}

#[test]
fn tail_mode_keeps_pod_and_line_order() {
    let pods = batch(&["a", "b", "c"], PALETTE_SIZE);
    let outcomes = vec![
        FetchOutcome::Fetched("a1\na2\na3\n".to_string()),
        FetchOutcome::Fetched("b1\nb2\nb3\n".to_string()),
        FetchOutcome::Fetched("c1\nc2\nc3".to_string()),
    ];
    let out = collect_tail(&pods, &outcomes);
    let expected = vec![
        line(0, "a", 0, "a1"),
        line(0, "a", 0, "a2"),
        line(0, "a", 0, "a3"),
        line(1, "b", 1, "b1"),
        line(1, "b", 1, "b2"),
        line(1, "b", 1, "b3"),
        line(2, "c", 2, "c1"),
        line(2, "c", 2, "c2"),
        line(2, "c", 2, "c3"),
    ];
    assert_eq!(out, expected);
}

#[test]
fn tail_mode_reports_failed_fetch_and_goes_on() {
    let pods = batch(&["a", "b", "c"], PALETTE_SIZE);
    let outcomes = vec![
        FetchOutcome::Fetched("a1\r\n".to_string()),
        FetchOutcome::Unavailable,
        FetchOutcome::Fetched("c1\n".to_string()),
    ];
    let out = collect_tail(&pods, &outcomes);
    assert_eq!(
        out,
        vec![
            line(0, "a", 0, "a1"),
            Emission::Warning {
                source: 1,
                pod_name: "b".to_string(),
                kind: Diagnostic::StreamOpenError,
            },
            line(2, "c", 2, "c1"),
        ]
    );
}

#[test]
fn tail_mode_empty_log_gives_no_lines() {
    let pods = batch(&["a"], PALETTE_SIZE);
    let out = collect_tail(&pods, &vec![FetchOutcome::Fetched(String::new())]);
    assert!(out.is_empty());
}

#[test]
fn empty_match_set_fails_and_opens_nothing() {
    let r = aggregate(Vec::new(), false, 100, PALETTE_SIZE);
    assert_eq!(r, Err(AggregationError::NoPodsMatched));
    let r = aggregate(Vec::new(), true, 100, PALETTE_SIZE);
    assert_eq!(r, Err(AggregationError::NoPodsMatched));
}

#[test]
fn aggregate_requests_one_stream_per_pod() {
    let a = aggregate(vec![pod("x"), pod("y")], true, 25, PALETTE_SIZE).unwrap();
    assert_eq!(a.requests.len(), 2);
    assert_eq!(a.requests[1].source, 1);
    assert_eq!(a.requests[1].name, "y");
    assert_eq!(a.requests[1].namespace, "default");
    assert_eq!(a.requests[1].tail, 25);
    assert!(a.requests[1].follow);
    assert_eq!(a.pods[0].pod, pod("x"));
}

#[test]
fn tags_wrap_with_two_color_palette() {
    let first: Vec<usize> = batch(&["A", "B", "C"], 2).iter().map(|p| p.tag.slot).collect();
    let second: Vec<usize> = batch(&["A", "B", "C"], 2).iter().map(|p| p.tag.slot).collect();
    assert_eq!(first, vec![0, 1, 0]);
    assert_eq!(first, second);
    let tags: Vec<usize> = assign_tags(3, 2).iter().map(|t| t.slot).collect();
    assert_eq!(tags, vec![0, 1, 0]);
}

#[test]
fn default_palette_reuses_colors_past_ten_pods() {
    let names: Vec<String> = (0..12).map(|i| format!("p{}", i)).collect();
    let refs: Vec<&str> = names.iter().map(|s| s.as_str()).collect();
    let pods = batch(&refs, PALETTE_SIZE);
    assert_eq!(pods[10].tag.slot, 0);
    assert_eq!(pods[11].tag.slot, 1);
    assert_eq!(pods[10].tag.color(), Color::Green);
    assert_eq!(pods[9].tag.color(), Color::BrightCyan);
    assert_eq!(pods[2].tag.color(), Color::Blue);
}

#[test]
fn follow_mode_keeps_each_pod_in_order() {
    let mut s = FollowSession::new(batch(&["A", "B"], PALETTE_SIZE));
    let evs = vec![
        StreamEvent::Opened(0),
        StreamEvent::Opened(1),
        StreamEvent::Line(1, "b1".to_string()),
        StreamEvent::Line(0, "a1".to_string()),
        StreamEvent::Line(0, "a2".to_string()),
        StreamEvent::Line(1, "b2".to_string()),
        StreamEvent::Line(0, "a3".to_string()),
    ];
    let out = s.handle_all(evs);
    assert_eq!(out.len(), 5);
    assert_eq!(texts_of(&out, 0), vec!["a1", "a2", "a3"]);
    assert_eq!(texts_of(&out, 1), vec!["b1", "b2"]);
    assert_eq!(out[0], line(1, "B", 1, "b1"));
    assert!(!s.is_finished());
}

#[test]
fn follow_mode_open_failure_spares_other_pods() {
    let mut s = FollowSession::new(batch(&["A", "B", "C"], PALETTE_SIZE));
    let out = s.handle_all(vec![
        StreamEvent::Opened(0),
        StreamEvent::OpenFailed(1),
        StreamEvent::Opened(2),
        StreamEvent::Line(0, "a1".to_string()),
        StreamEvent::Line(2, "c1".to_string()),
        StreamEvent::Line(0, "a2".to_string()),
    ]);
    assert_eq!(
        out[0],
        Emission::Warning { source: 1, pod_name: "B".to_string(), kind: Diagnostic::StreamOpenError }
    );
    assert_eq!(texts_of(&out, 0), vec!["a1", "a2"]);
    assert_eq!(texts_of(&out, 2), vec!["c1"]);
    assert_eq!(s.state(1), ReaderState::Failed);
    assert_eq!(s.state(0), ReaderState::Streaming);
}

#[test]
fn follow_mode_read_failure_ends_only_that_pod() {
    let mut s = FollowSession::new(batch(&["A", "B"], PALETTE_SIZE));
    let out = s.handle_all(vec![
        StreamEvent::Opened(0),
        StreamEvent::Opened(1),
        StreamEvent::ReadFailed(0),
        StreamEvent::Line(0, "late".to_string()),
        StreamEvent::Line(1, "b1".to_string()),
    ]);
    assert_eq!(
        out,
        vec![
            Emission::Warning { source: 0, pod_name: "A".to_string(), kind: Diagnostic::StreamReadError },
            line(1, "B", 1, "b1"),
        ]
    );
}

#[test]
fn cancel_closes_every_open_stream() {
    let mut s = FollowSession::new(batch(&["A", "B", "C"], PALETTE_SIZE));
    s.handle_all(vec![
        StreamEvent::Opened(0),
        StreamEvent::Opened(1),
        StreamEvent::Closed(1),
    ]);
    let mut closed: Vec<usize> = Vec::new();
    for i in s.cancel() {
        closed.push(i);
    }
    assert_eq!(closed, vec![0, 2]);
    assert!(s.is_finished());
    assert_eq!(s.state(0), ReaderState::Cancelled);
    assert_eq!(s.state(1), ReaderState::Completed);
    assert_eq!(s.state(2), ReaderState::Cancelled);
    assert_eq!(s.handle(StreamEvent::Line(0, "after".to_string())), None);
}

#[test]
fn cancel_twice_or_after_completion_is_a_no_op() {
    let mut s = FollowSession::new(batch(&["A", "B"], PALETTE_SIZE));
    assert_eq!(s.cancel(), vec![0, 1]);
    assert_eq!(s.cancel(), Vec::<usize>::new());
    let mut t = FollowSession::new(batch(&["A"], PALETTE_SIZE));
    t.handle_all(vec![StreamEvent::Opened(0), StreamEvent::Closed(0)]);
    assert!(t.is_finished());
    assert_eq!(t.cancel(), Vec::<usize>::new());
    assert_eq!(t.state(0), ReaderState::Completed);
}

#[test]
fn events_about_unknown_pods_are_ignored() {
    let mut s = FollowSession::new(batch(&["A"], PALETTE_SIZE));
    assert_eq!(s.handle(StreamEvent::Line(5, "x".to_string())), None);
    assert_eq!(s.len(), 1);
    assert_eq!(s.state(0), ReaderState::Starting);
}

#[test]
fn follow_mode_reports_undecodable_line_and_goes_on() {
    let mut s = FollowSession::new(batch(&["A"], PALETTE_SIZE));
    let out = s.handle_all(vec![
        StreamEvent::Opened(0),
        StreamEvent::Line(0, "a1".to_string()),
        StreamEvent::Undecodable(0),
        StreamEvent::Line(0, "a2".to_string()),
    ]);
    assert_eq!(
        out,
        vec![
            line(0, "A", 0, "a1"),
            Emission::Warning { source: 0, pod_name: "A".to_string(), kind: Diagnostic::UndecodableLine },
            line(0, "A", 0, "a2"),
        ]
    );
    assert_eq!(s.state(0), ReaderState::Streaming);
}
