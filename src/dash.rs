//! State of the pod dashboard: the pod list, the selection, the log panel
//! and a bounded history of metrics snapshots. The caller performs every
//! `kubectl` call and passes in what it returned, and the clock.
use vstd::prelude::*;
use std::collections::VecDeque;
use crate::aggregate::{FetchOutcome, PodRef};
use crate::age::{dashboard_age, dashboard_age_text};
use crate::metrics::PodMetrics;
use crate::pods::{entries_of, entry_views, fields_show, or_default, pod_entries, EntryView, PodEntry, PodFields};
use crate::text::{chars_of, decimal, lines_of, push_char, push_decimal, split_lines, views};

verus! {

broadcast use vstd::string::group_string_axioms;

/// One row of the pod list.
#[derive(Debug, PartialEq, Eq)]
pub struct PodInfo {
    pub name: String,
    pub namespace: String,
    pub status: String,
    pub restarts: u64,
    pub age: String,
}

/// The metrics of all pods at one time.
#[derive(Debug, PartialEq, Eq)]
pub struct MetricsSnapshot {
    /// When it was taken, in the caller's clock (milliseconds).
    pub timestamp: u64,
    pub pod_metrics: Vec<PodMetrics>,
}

/// Most snapshots kept in the history.
pub const HISTORY_LIMIT: usize = 60;

/// Milliseconds after which the pod list is refreshed.
pub const REFRESH_INTERVAL_MS: u64 = 5000;

/// What the log panel shows when the logs could not be fetched.
pub open spec fn fetch_failed_text() -> Seq<char> {
    "Failed to fetch logs"@
}

/// The pod-list row of an entry seen at time `now`: a missing name reads
/// `unknown`, a missing namespace `default`, a missing phase `Unknown`, a
/// missing restart count zero, and the age follows `dashboard_age_text`.
pub open spec fn info_matches(info: PodInfo, e: EntryView, now: i64) -> bool {
    &&& fields_show(
        PodFields { name: info.name, namespace: info.namespace, status: info.status, restarts: info.restarts },
        e,
    )
    &&& info.age@ == dashboard_age_text(or_default(e.created, seq![]), now)
}

impl PodInfo {
    /// The row of `e` at time `now` (seconds since the epoch).
    pub fn from_entry(e: &PodEntry, now: i64) -> (r: PodInfo)
        ensures
            info_matches(r, e@, now),
    {
        let created = match &e.created {
            Some(c) => c.clone(),
            None => String::new(),
        };
        let f = PodFields::of_entry(e);
        PodInfo {
            name: f.name,
            namespace: f.namespace,
            status: f.status,
            restarts: f.restarts,
            age: dashboard_age(created.as_str(), now),
        }
    }
}

/// `rows` are the rows of `entries` at time `now`, in order.
pub open spec fn infos_match(rows: Seq<PodInfo>, entries: Seq<EntryView>, now: i64) -> bool {
    &&& rows.len() == entries.len()
    &&& forall|i: int| 0 <= i < rows.len() ==> info_matches(#[trigger] rows[i], entries[i], now)
}

/// The rows of `entries` at time `now`, in order.
pub fn pod_infos(entries: &Vec<PodEntry>, now: i64) -> (r: Vec<PodInfo>)
    ensures
        infos_match(r@, entry_views(entries@), now),
{
    let mut out: Vec<PodInfo> = Vec::new();
    let mut i: usize = 0;
    while i < entries.len()
        invariant
            i <= entries@.len(),
            out@.len() == i,
            forall|j: int| 0 <= j < i ==> info_matches(#[trigger] out@[j], entries@[j]@, now),
        decreases entries@.len() - i,
    {
        out.push(PodInfo::from_entry(&entries[i], now));
        i = i + 1;
    }
    out
}

/// The rows of the pod list document `doc` at time `now`.
pub fn get_pods(doc: &serde_json::Value, now: i64) -> (r: Vec<PodInfo>)
    ensures
        infos_match(r@, entries_of(*doc), now),
{
    let entries = pod_entries(doc);
    pod_infos(&entries, now)
}

/// `n` spaces.
pub open spec fn spaces(n: nat) -> Seq<char> {
    Seq::new(n, |i: int| ' ')
}

/// `s` padded with spaces on the right to at least `width` characters.
pub open spec fn pad_right(s: Seq<char>, width: nat) -> Seq<char> {
    if s.len() >= width {
        s
    } else {
        s + spaces((width - s.len()) as nat)
    }
}

/// The text of a pod-list row: a `>` marker on the selected row, then the
/// name, namespace and status in columns of 38, 15 and 10 characters, the
/// restart count and the age.
pub open spec fn row_text(p: PodInfo, selected: bool) -> Seq<char> {
    seq![if selected { '>' } else { ' ' }, ' '] + pad_right(p.name@, 38) + seq![' '] + pad_right(
        p.namespace@,
        15,
    ) + seq![' '] + pad_right(p.status@, 10) + seq![' ', 'R', ':'] + decimal(p.restarts as nat)
        + seq![' ', 'A', 'g', 'e', ':'] + p.age@
}

fn push_padded(s: &mut String, t: &str, width: usize)
    ensures
        final(s)@ == old(s)@ + pad_right(t@, width as nat),
{
    let n = chars_of(t).len();
    s.append(t);
    let mut k: usize = n;
    while k < width
        invariant
            n == t@.len(),
            n <= k,
            k <= width || k == n,
            s@ == old(s)@ + t@ + spaces((k - n) as nat),
        decreases width - k,
    {
        push_char(s, ' ');
        assert(spaces((k + 1 - n) as nat) =~= spaces((k - n) as nat).push(' '));
        k = k + 1;
    }
    if n < width {
        assert(s@ =~= old(s)@ + pad_right(t@, width as nat));
    } else {
        assert(spaces(0) =~= seq![]);
        assert(s@ =~= old(s)@ + pad_right(t@, width as nat));
    }
}

fn push_str_chars(s: &mut String, c: &Vec<char>)
    ensures
        final(s)@ == old(s)@ + c@,
{
    let mut i: usize = 0;
    while i < c.len()
        invariant
            i <= c@.len(),
            s@ == old(s)@ + c@.take(i as int),
        decreases c@.len() - i,
    {
        push_char(s, c[i]);
        assert(c@.take(i + 1) =~= c@.take(i as int).push(c@[i as int]));
        i = i + 1;
    }
    assert(c@.take(i as int) =~= c@);
}

/// The text of the pod-list row of `p`: see `row_text`.
pub fn pod_row(p: &PodInfo, selected: bool) -> (r: String)
    ensures
        r@ == row_text(*p, selected),
{
    let mut s = String::new();
    push_char(&mut s, if selected { '>' } else { ' ' });
    push_char(&mut s, ' ');
    push_padded(&mut s, p.name.as_str(), 38);
    push_char(&mut s, ' ');
    push_padded(&mut s, p.namespace.as_str(), 15);
    push_char(&mut s, ' ');
    push_padded(&mut s, p.status.as_str(), 10);
    let r_label = vec![' ', 'R', ':'];
    push_str_chars(&mut s, &r_label);
    push_decimal(&mut s, p.restarts as u128);
    let age_label = vec![' ', 'A', 'g', 'e', ':'];
    push_str_chars(&mut s, &age_label);
    s.append(p.age.as_str());
    assert(s@ =~= row_text(*p, selected));
    s
}

/// The dashboard's state.
pub struct App {
    pods: Vec<PodInfo>,
    last_update: u64,
    selected_index: usize,
    logs: Vec<String>,
    show_logs: bool,
    show_metrics: bool,
    metrics_history: VecDeque<MetricsSnapshot>,
}

/// The dashboard's state as plain values.
pub struct AppView {
    pub pods: Seq<PodInfo>,
    pub last_update: u64,
    pub selected_index: usize,
    pub logs: Seq<Seq<char>>,
    pub show_logs: bool,
    pub show_metrics: bool,
    pub history: Seq<MetricsSnapshot>,
}

/// `h` with `snap` appended, dropping the oldest entry beyond the limit.
pub open spec fn push_bounded(h: Seq<MetricsSnapshot>, snap: MetricsSnapshot) -> Seq<MetricsSnapshot> {
    if h.len() + 1 > HISTORY_LIMIT {
        h.push(snap).drop_first()
    } else {
        h.push(snap)
    }
}

impl View for App {
    type V = AppView;

    closed spec fn view(&self) -> AppView {
        AppView {
            pods: self.pods@,
            last_update: self.last_update,
            selected_index: self.selected_index,
            logs: views(self.logs@),
            show_logs: self.show_logs,
            show_metrics: self.show_metrics,
            history: self.metrics_history@,
        }
    }
}

impl App {
    /// The history stays within its limit and the selection can move on.
    pub open spec fn wf(&self) -> bool {
        &&& self@.history.len() <= HISTORY_LIMIT
        &&& self@.selected_index < usize::MAX
    }

    /// An empty dashboard, last updated at `now`.
    pub fn new(now: u64) -> (a: App)
        ensures
            a.wf(),
            a@.pods.len() == 0,
            a@.last_update == now,
            a@.selected_index == 0,
            a@.logs.len() == 0,
            !a@.show_logs,
            !a@.show_metrics,
            a@.history.len() == 0,
    {
        let a = App {
            pods: Vec::new(),
            last_update: now,
            selected_index: 0,
            logs: Vec::new(),
            show_logs: false,
            show_metrics: false,
            metrics_history: VecDeque::with_capacity(HISTORY_LIMIT),
        };
        assert(a@.logs =~= seq![]);
        a
    }

    /// Replaces the pod list, refreshed at `now`. Returns whether metrics
    /// are shown, in which case the caller fetches them and hands them to
    /// `update_metrics`.
    pub fn update(&mut self, pods: Vec<PodInfo>, now: u64) -> (fetch_metrics: bool)
        requires
            old(self).wf(),
        ensures
            final(self).wf(),
            final(self)@ == (AppView { pods: pods@, last_update: now, ..old(self)@ }),
            fetch_metrics == old(self)@.show_metrics,
    {
        self.pods = pods;
        self.last_update = now;
        self.show_metrics
    }

    /// Records a metrics snapshot taken at `now`, keeping the last
    /// `HISTORY_LIMIT` snapshots.
    pub fn update_metrics(&mut self, metrics: Vec<PodMetrics>, now: u64)
        requires
            old(self).wf(),
        ensures
            final(self).wf(),
            final(self)@ == (AppView {
                history: push_bounded(
                    old(self)@.history,
                    MetricsSnapshot { timestamp: now, pod_metrics: metrics },
                ),
                ..old(self)@
            }),
    {
        self.metrics_history.push_back(MetricsSnapshot { timestamp: now, pod_metrics: metrics });
        if self.metrics_history.len() > HISTORY_LIMIT {
            let _ = self.metrics_history.pop_front();
        }
        assert(self@.history =~= push_bounded(
            old(self)@.history,
            MetricsSnapshot { timestamp: now, pod_metrics: metrics },
        ));
    }

    /// Shows or hides the metrics. Returns whether they are now shown, in
    /// which case the caller fetches them and hands them to `update_metrics`.
    pub fn toggle_metrics(&mut self) -> (fetch_metrics: bool)
        requires
            old(self).wf(),
        ensures
            final(self).wf(),
            final(self)@ == (AppView { show_metrics: !old(self)@.show_metrics, ..old(self)@ }),
            fetch_metrics == final(self)@.show_metrics,
    {
        self.show_metrics = !self.show_metrics;
        self.show_metrics
    }

    /// Moves the selection down, wrapping to the top.
    pub fn select_next(&mut self)
        requires
            old(self).wf(),
        ensures
            final(self).wf(),
            final(self)@ == (AppView {
                selected_index: if old(self)@.pods.len() == 0 {
                    old(self)@.selected_index
                } else {
                    ((old(self)@.selected_index + 1) % (old(self)@.pods.len() as int)) as usize
                },
                ..old(self)@
            }),
    {
        if self.pods.len() > 0 {
            self.selected_index = (self.selected_index + 1) % self.pods.len();
        }
    }

    /// Moves the selection up, wrapping to the bottom.
    pub fn select_prev(&mut self)
        requires
            old(self).wf(),
        ensures
            final(self).wf(),
            final(self)@ == (AppView {
                selected_index: if old(self)@.pods.len() == 0 {
                    old(self)@.selected_index
                } else if old(self)@.selected_index > 0 {
                    (old(self)@.selected_index - 1) as usize
                } else {
                    (old(self)@.pods.len() - 1) as usize
                },
                ..old(self)@
            }),
    {
        if self.pods.len() > 0 {
            if self.selected_index > 0 {
                self.selected_index = self.selected_index - 1;
            } else {
                self.selected_index = self.pods.len() - 1;
            }
        }
    }

    /// The pod whose logs the panel shows: the selected one, if any.
    pub fn log_target(&self) -> (r: Option<PodRef>)
        ensures
            r is Some <==> self@.selected_index < self@.pods.len(),
            r matches Some(p) ==> p.name == self@.pods[self@.selected_index as int].name
                && p.namespace == self@.pods[self@.selected_index as int].namespace,
    {
        if self.selected_index < self.pods.len() {
            let p = &self.pods[self.selected_index];
            Some(PodRef { name: p.name.clone(), namespace: p.namespace.clone() })
        } else {
            None
        }
    }

    /// Shows or hides the log panel. Returns the pod whose logs the caller
    /// fetches and hands to `receive_logs`: the selected pod, when the panel
    /// is now shown.
    pub fn toggle_logs(&mut self) -> (r: Option<PodRef>)
        requires
            old(self).wf(),
        ensures
            final(self).wf(),
            final(self)@ == (AppView { show_logs: !old(self)@.show_logs, ..old(self)@ }),
            r is Some <==> final(self)@.show_logs && old(self)@.selected_index < old(self)@.pods.len(),
            r matches Some(p) ==> p.name == old(self)@.pods[old(self)@.selected_index as int].name
                && p.namespace == old(self)@.pods[old(self)@.selected_index as int].namespace,
    {
        self.show_logs = !self.show_logs;
        if self.show_logs && self.pods.len() > 0 {
            self.log_target()
        } else {
            None
        }
    }

    /// Fills the log panel from what fetching the logs gave: the lines of
    /// the fetched text, or one line saying the fetch failed.
    pub fn receive_logs(&mut self, outcome: FetchOutcome)
        requires
            old(self).wf(),
        ensures
            final(self).wf(),
            final(self)@ == (AppView {
                logs: match outcome {
                    FetchOutcome::Fetched(text) => lines_of(text@),
                    FetchOutcome::Unavailable => seq![fetch_failed_text()],
                },
                ..old(self)@
            }),
    {
        match outcome {
            FetchOutcome::Fetched(text) => {
                self.logs = split_lines(text.as_str());
            },
            FetchOutcome::Unavailable => {
                let mut v: Vec<String> = Vec::new();
                v.push("Failed to fetch logs".to_string());
                assert(views(v@) =~= seq![fetch_failed_text()]);
                self.logs = v;
            },
        }
    }

    /// Whether the pod list is due for a refresh at `now`: more than
    /// `REFRESH_INTERVAL_MS` after the last update.
    pub fn needs_refresh(&self, now: u64) -> (r: bool)
        ensures
            r == (now > self@.last_update && now - self@.last_update > REFRESH_INTERVAL_MS),
    {
        now > self.last_update && now - self.last_update > REFRESH_INTERVAL_MS
    }

    /// The pod list.
    pub fn pods(&self) -> (r: &Vec<PodInfo>)
        ensures
            r@ == self@.pods,
    {
        &self.pods
    }

    /// Position of the selected pod.
    pub fn selected_index(&self) -> (r: usize)
        ensures
            r == self@.selected_index,
    {
        self.selected_index
    }

    /// The lines of the log panel.
    pub fn logs(&self) -> (r: &Vec<String>)
        ensures
            views(r@) == self@.logs,
    {
        &self.logs
    }

    /// Whether the log panel is shown.
    pub fn show_logs(&self) -> (r: bool)
        ensures
            r == self@.show_logs,
    {
        self.show_logs
    }

    /// Whether the metrics are shown.
    pub fn show_metrics(&self) -> (r: bool)
        ensures
            r == self@.show_metrics,
    {
        self.show_metrics
    }

    /// When the pod list was last refreshed.
    pub fn last_update(&self) -> (r: u64)
        ensures
            r == self@.last_update,
    {
        self.last_update
    }

    /// Number of snapshots in the history.
    pub fn history_len(&self) -> (r: usize)
        ensures
            r == self@.history.len(),
    {
        self.metrics_history.len()
    }

    /// The newest metrics snapshot, if any.
    pub fn latest_metrics(&self) -> (r: Option<&MetricsSnapshot>)
        ensures
            self@.history.len() == 0 ==> r is None,
            self@.history.len() > 0 ==> r == Some(&self@.history.last()),
    {
        let n = self.metrics_history.len();
        if n == 0 {
            None
        } else {
            Some(&self.metrics_history[n - 1])
        }
    }
}

} // verus!
