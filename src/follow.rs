//! The follow-mode session: one reader per pod pushes events onto a shared
//! queue; the session turns each event, in arrival order, into output and
//! tracks each reader's state until it ends or is cancelled.
use vstd::prelude::*;
use crate::aggregate::{
    Diagnostic, Emission, EmissionView, LogLine, TaggedPod, emission_views,
    lemma_texts_concat, texts_of_source,
};

verus! {

/// Life cycle of one pod's reader.
#[derive(Clone, Copy, Debug, PartialEq, Eq, Structural)]
pub enum ReaderState {
    Starting,
    Streaming,
    Completed,
    Failed,
    Cancelled,
}

/// Whether a reader in this state still holds (or is opening) a stream.
pub open spec fn is_active(s: ReaderState) -> bool {
    s == ReaderState::Starting || s == ReaderState::Streaming
}

/// What a reader reports about the pod at the given position.
#[derive(Debug, PartialEq, Eq)]
pub enum StreamEvent {
    /// The stream was opened.
    Opened(usize),
    /// The stream gave one line.
    Line(usize, String),
    /// The stream gave a line that is not valid UTF-8.
    Undecodable(usize),
    /// The stream could not be opened.
    OpenFailed(usize),
    /// The stream broke while being read.
    ReadFailed(usize),
    /// The stream ended normally.
    Closed(usize),
}

/// The pod position an event is about.
pub open spec fn event_source(e: StreamEvent) -> usize {
    match e {
        StreamEvent::Opened(i) => i,
        StreamEvent::Line(i, _) => i,
        StreamEvent::Undecodable(i) => i,
        StreamEvent::OpenFailed(i) => i,
        StreamEvent::ReadFailed(i) => i,
        StreamEvent::Closed(i) => i,
    }
}

/// Whether `e` ends the reader of pod position `i`.
pub open spec fn ends_reader(e: StreamEvent, i: usize) -> bool {
    event_source(e) == i && (e is OpenFailed || e is ReadFailed || e is Closed)
}

/// The state of a reader after event `e` about it.
pub open spec fn next_state(st: ReaderState, e: StreamEvent) -> ReaderState {
    match e {
        StreamEvent::Opened(_) => if st == ReaderState::Starting { ReaderState::Streaming } else { st },
        StreamEvent::Line(_, _) => if is_active(st) { ReaderState::Streaming } else { st },
        StreamEvent::Undecodable(_) => if is_active(st) { ReaderState::Streaming } else { st },
        StreamEvent::OpenFailed(_) => if st == ReaderState::Starting { ReaderState::Failed } else { st },
        StreamEvent::ReadFailed(_) => if st == ReaderState::Streaming { ReaderState::Failed } else { st },
        StreamEvent::Closed(_) => if is_active(st) { ReaderState::Completed } else { st },
    }
}

/// The reader states after event `e`; an event about no pod changes nothing.
pub open spec fn step_states(states: Seq<ReaderState>, e: StreamEvent) -> Seq<ReaderState> {
    let i = event_source(e);
    if i < states.len() {
        states.update(i as int, next_state(states[i as int], e))
    } else {
        states
    }
}

/// What event `e` puts out: a line of an active reader, or a warning when a
/// reader fails.
pub open spec fn step_output(pods: Seq<TaggedPod>, states: Seq<ReaderState>, e: StreamEvent) -> Option<EmissionView> {
    let i = event_source(e);
    if i >= states.len() || i >= pods.len() {
        None
    } else {
        let st = states[i as int];
        let name = pods[i as int].pod.name@;
        match e {
            StreamEvent::Line(_, text) => if is_active(st) {
                Some(EmissionView::Line { source: i, pod_name: name, tag: pods[i as int].tag, text: text@ })
            } else {
                None
            },
            StreamEvent::Undecodable(_) => if is_active(st) {
                Some(EmissionView::Warning { source: i, pod_name: name, kind: Diagnostic::UndecodableLine })
            } else {
                None
            },
            StreamEvent::OpenFailed(_) => if st == ReaderState::Starting {
                Some(EmissionView::Warning { source: i, pod_name: name, kind: Diagnostic::StreamOpenError })
            } else {
                None
            },
            StreamEvent::ReadFailed(_) => if st == ReaderState::Streaming {
                Some(EmissionView::Warning { source: i, pod_name: name, kind: Diagnostic::StreamReadError })
            } else {
                None
            },
            _ => None,
        }
    }
}

/// An optional output as a sequence of zero or one items.
pub open spec fn opt_seq(o: Option<EmissionView>) -> Seq<EmissionView> {
    match o {
        Some(v) => seq![v],
        None => seq![],
    }
}

/// The output of a session that handles `evs` in order from `states`.
pub open spec fn run_output(pods: Seq<TaggedPod>, states: Seq<ReaderState>, evs: Seq<StreamEvent>) -> Seq<EmissionView>
    decreases evs.len(),
{
    if evs.len() == 0 {
        seq![]
    } else {
        opt_seq(step_output(pods, states, evs[0])) + run_output(
            pods,
            step_states(states, evs[0]),
            evs.drop_first(),
        )
    }
}

/// The reader states after handling `evs` in order from `states`.
pub open spec fn run_states(states: Seq<ReaderState>, evs: Seq<StreamEvent>) -> Seq<ReaderState>
    decreases evs.len(),
{
    if evs.len() == 0 {
        states
    } else {
        run_states(step_states(states, evs[0]), evs.drop_first())
    }
}

/// The texts of the lines that `evs` carries for pod position `i`, in order.
pub open spec fn line_texts(evs: Seq<StreamEvent>, i: usize) -> Seq<Seq<char>>
    decreases evs.len(),
{
    if evs.len() == 0 {
        seq![]
    } else {
        let rest = line_texts(evs.drop_first(), i);
        match evs[0] {
            StreamEvent::Line(j, text) => if j == i {
                seq![text@] + rest
            } else {
                rest
            },
            _ => rest,
        }
    }
}

/// Every active reader cancelled; the others kept.
pub open spec fn cancel_states(states: Seq<ReaderState>) -> Seq<ReaderState> {
    states.map_values(|s: ReaderState| if is_active(s) { ReaderState::Cancelled } else { s })
}

/// Whether no reader is active.
pub open spec fn all_ended(states: Seq<ReaderState>) -> bool {
    forall|k: int| 0 <= k < states.len() ==> !is_active(#[trigger] states[k])
}

/// A follow-mode session over a batch of tagged pods.
pub struct FollowSession {
    pods: Vec<TaggedPod>,
    states: Vec<ReaderState>,
}

impl FollowSession {
    /// The pods of the session, by position.
    pub closed spec fn pods_view(&self) -> Seq<TaggedPod> {
        self.pods@
    }

    /// The state of each pod's reader, by position.
    pub closed spec fn states_view(&self) -> Seq<ReaderState> {
        self.states@
    }

    /// One reader state per pod.
    pub closed spec fn wf(&self) -> bool {
        self.pods@.len() == self.states@.len()
    }

    /// A session over `pods`, every reader starting.
    pub fn new(pods: Vec<TaggedPod>) -> (s: FollowSession)
        ensures
            s.wf(),
            s.pods_view() == pods@,
            s.states_view().len() == pods@.len(),
            forall|k: int| 0 <= k < pods@.len() ==> #[trigger] s.states_view()[k] == ReaderState::Starting,
    {
        let mut states: Vec<ReaderState> = Vec::new();
        let mut i: usize = 0;
        while i < pods.len()
            invariant
                i <= pods@.len(),
                states@.len() == i,
                forall|k: int| 0 <= k < i ==> #[trigger] states@[k] == ReaderState::Starting,
            decreases pods@.len() - i,
        {
            states.push(ReaderState::Starting);
            i = i + 1;
        }
        FollowSession { pods, states }
    }

    /// Number of pods in the session.
    pub fn len(&self) -> (n: usize)
        requires
            self.wf(),
        ensures
            n == self.pods_view().len(),
    {
        self.pods.len()
    }

    /// The state of the reader of pod position `i`.
    pub fn state(&self, i: usize) -> (s: ReaderState)
        requires
            self.wf(),
            i < self.pods_view().len(),
        ensures
            s == self.states_view()[i as int],
    {
        self.states[i]
    }

    /// Whether no reader is still starting or streaming.
    pub fn is_finished(&self) -> (r: bool)
        requires
            self.wf(),
        ensures
            r == all_ended(self.states_view()),
    {
        let mut k: usize = 0;
        while k < self.states.len()
            invariant
                k <= self.states@.len(),
                forall|j: int| 0 <= j < k ==> !is_active(#[trigger] self.states@[j]),
            decreases self.states@.len() - k,
        {
            let s = self.states[k];
            if s == ReaderState::Starting || s == ReaderState::Streaming {
                return false;
            }
            k = k + 1;
        }
        true
    }

    /// Handles one event from the queue and returns what it puts out.
    pub fn handle(&mut self, e: StreamEvent) -> (out: Option<Emission>)
        requires
            old(self).wf(),
        ensures
            final(self).wf(),
            final(self).pods_view() == old(self).pods_view(),
            final(self).states_view() == step_states(old(self).states_view(), e),
            opt_seq(match out { Some(x) => Some(x@), None => None }) == opt_seq(
                step_output(old(self).pods_view(), old(self).states_view(), e),
            ),
    {
        let i = match &e {
            StreamEvent::Opened(i) => *i,
            StreamEvent::Line(i, _) => *i,
            StreamEvent::Undecodable(i) => *i,
            StreamEvent::OpenFailed(i) => *i,
            StreamEvent::ReadFailed(i) => *i,
            StreamEvent::Closed(i) => *i,
        };
        if i >= self.states.len() {
            return None;
        }
        let st = self.states[i];
        let active = st == ReaderState::Starting || st == ReaderState::Streaming;
        let (next, out) = match e {
            StreamEvent::Opened(_) => {
                (if st == ReaderState::Starting { ReaderState::Streaming } else { st }, None)
            },
            StreamEvent::Line(_, text) => {
                if active {
                    let line = LogLine {
                        source: i,
                        pod_name: self.pods[i].pod.name.clone(),
                        tag: self.pods[i].tag,
                        text,
                    };
                    (ReaderState::Streaming, Some(Emission::Line(line)))
                } else {
                    (st, None)
                }
            },
            StreamEvent::Undecodable(_) => {
                if active {
                    let w = Emission::Warning {
                        source: i,
                        pod_name: self.pods[i].pod.name.clone(),
                        kind: Diagnostic::UndecodableLine,
                    };
                    (ReaderState::Streaming, Some(w))
                } else {
                    (st, None)
                }
            },
            StreamEvent::OpenFailed(_) => {
                if st == ReaderState::Starting {
                    let w = Emission::Warning {
                        source: i,
                        pod_name: self.pods[i].pod.name.clone(),
                        kind: Diagnostic::StreamOpenError,
                    };
                    (ReaderState::Failed, Some(w))
                } else {
                    (st, None)
                }
            },
            StreamEvent::ReadFailed(_) => {
                if st == ReaderState::Streaming {
                    let w = Emission::Warning {
                        source: i,
                        pod_name: self.pods[i].pod.name.clone(),
                        kind: Diagnostic::StreamReadError,
                    };
                    (ReaderState::Failed, Some(w))
                } else {
                    (st, None)
                }
            },
            StreamEvent::Closed(_) => {
                (if active { ReaderState::Completed } else { st }, None)
            },
        };
        self.states.set(i, next);
        out
    }

    /// Cancels the session: every reader still starting or streaming is
    /// cancelled, and its position is returned so that its stream is closed.
    /// Once nothing is active, cancelling again changes nothing and returns
    /// nothing.
    pub fn cancel(&mut self) -> (to_close: Vec<usize>)
        requires
            old(self).wf(),
        ensures
            final(self).wf(),
            final(self).pods_view() == old(self).pods_view(),
            final(self).states_view() == cancel_states(old(self).states_view()),
            all_ended(final(self).states_view()),
            to_close@.no_duplicates(),
            forall|k: usize| #[trigger] to_close@.contains(k)
                <==> (k < old(self).states_view().len() && is_active(old(self).states_view()[k as int])),
            all_ended(old(self).states_view()) ==> to_close@.len() == 0 && final(self).states_view()
                == old(self).states_view(),
    {
        let ghost before = self.states@;
        let mut to_close: Vec<usize> = Vec::new();
        let mut k: usize = 0;
        while k < self.states.len()
            invariant
                self.pods@.len() == self.states@.len(),
                self.pods@ == old(self).pods@,
                before == old(self).states@,
                self.states@.len() == before.len(),
                k <= before.len(),
                forall|j: int| 0 <= j < k ==> #[trigger] self.states@[j] == cancel_states(before)[j],
                forall|j: int| k <= j < before.len() ==> #[trigger] self.states@[j] == before[j],
                forall|j: int| 0 <= j < to_close@.len() ==> #[trigger] to_close@[j] < k,
                forall|j: int, l: int| 0 <= j < l < to_close@.len() ==> to_close@[j] < to_close@[l],
                forall|x: usize| #[trigger] to_close@.contains(x) <==> (x < k && is_active(before[x as int])),
            decreases before.len() - k,
        {
            let s = self.states[k];
            let ghost prev = to_close@;
            if s == ReaderState::Starting || s == ReaderState::Streaming {
                self.states.set(k, ReaderState::Cancelled);
                to_close.push(k);
                assert forall|x: usize| #[trigger] to_close@.contains(x)
                    <==> (x < k + 1 && is_active(before[x as int])) by {
                    if x == k {
                        assert(to_close@[to_close@.len() - 1] == k);
                    }
                    if to_close@.contains(x) && x != k {
                        let j = choose|j: int| 0 <= j < to_close@.len() && to_close@[j] == x;
                        assert(prev[j] == x);
                    }
                    if prev.contains(x) {
                        let j = choose|j: int| 0 <= j < prev.len() && prev[j] == x;
                        assert(to_close@[j] == x);
                    }
                }
            }
            k = k + 1;
        }
        proof {
            assert(self.states@ =~= cancel_states(before));
            assert forall|j: int| 0 <= j < self.states@.len() implies !is_active(#[trigger] self.states@[j]) by {
                assert(self.states@[j] == cancel_states(before)[j]);
            }
            if all_ended(before) {
                assert(cancel_states(before) =~= before);
                if to_close@.len() > 0 {
                    assert(to_close@.contains(to_close@[0]));
                }
            }
        }
        to_close
    }

    /// Handles the events of `evs` in order and returns what they put out.
    pub fn handle_all(&mut self, evs: Vec<StreamEvent>) -> (out: Vec<Emission>)
        requires
            old(self).wf(),
        ensures
            final(self).wf(),
            final(self).pods_view() == old(self).pods_view(),
            final(self).states_view() == run_states(old(self).states_view(), evs@),
            emission_views(out@) == run_output(old(self).pods_view(), old(self).states_view(), evs@),
    {
        let mut rem = evs;
        let mut out: Vec<Emission> = Vec::new();
        proof {
            assert(emission_views(out@) + run_output(self.pods_view(), self.states_view(), rem@) =~= run_output(
                self.pods_view(),
                self.states_view(),
                rem@,
            ));
        }
        while rem.len() > 0
            invariant
                self.wf(),
                self.pods_view() == old(self).pods_view(),
                run_states(self.states_view(), rem@) == run_states(old(self).states_view(), evs@),
                emission_views(out@) + run_output(self.pods_view(), self.states_view(), rem@) == run_output(
                    old(self).pods_view(),
                    old(self).states_view(),
                    evs@,
                ),
            decreases rem@.len(),
        {
            let ghost r0 = rem@;
            let ghost st0 = self.states_view();
            let ghost o0 = out@;
            let e = rem.remove(0);
            assert(rem@ =~= r0.drop_first());
            let o = self.handle(e);
            match o {
                Some(x) => {
                    out.push(x);
                    assert(emission_views(out@) =~= emission_views(o0) + opt_seq(
                        step_output(self.pods_view(), st0, r0[0]),
                    ));
                },
                None => {
                    assert(opt_seq(step_output(self.pods_view(), st0, r0[0])) =~= seq![]);
                    assert(emission_views(out@) =~= emission_views(o0) + opt_seq(
                        step_output(self.pods_view(), st0, r0[0]),
                    ));
                },
            }
            assert(emission_views(out@) + run_output(self.pods_view(), self.states_view(), rem@) =~= emission_views(o0)
                + run_output(self.pods_view(), st0, r0));
        }
        assert(emission_views(out@) + run_output(self.pods_view(), self.states_view(), rem@) =~= emission_views(out@));
        out
    }
}

/// In follow mode, the lines of a pod whose reader stays open come out in
/// exactly the order the pod emitted them, however the other pods' events
/// interleave with them.
pub proof fn follow_keeps_source_order(
    pods: Seq<TaggedPod>,
    states: Seq<ReaderState>,
    evs: Seq<StreamEvent>,
    i: usize,
)
    requires
        pods.len() == states.len(),
        i < states.len(),
        is_active(states[i as int]),
        forall|k: int| 0 <= k < evs.len() ==> !ends_reader(#[trigger] evs[k], i),
    ensures
        texts_of_source(run_output(pods, states, evs), i) == line_texts(evs, i),
    decreases evs.len(),
{
    if evs.len() > 0 {
        let e = evs[0];
        let o = opt_seq(step_output(pods, states, e));
        let st = step_states(states, e);
        assert(!ends_reader(evs[0], i));
        assert forall|k: int| 0 <= k < evs.drop_first().len() implies !ends_reader(#[trigger] evs.drop_first()[k], i) by {
            assert(evs.drop_first()[k] == evs[k + 1]);
        }
        follow_keeps_source_order(pods, st, evs.drop_first(), i);
        lemma_texts_concat(o, run_output(pods, st, evs.drop_first()), i);
        if o.len() == 1 {
            assert(o.drop_last() =~= seq![]);
            assert(texts_of_source(o.drop_last(), i) =~= seq![]);
            assert(o.last() == step_output(pods, states, e)->Some_0);
        } else {
            assert(o =~= seq![]);
        }
        let rest = line_texts(evs.drop_first(), i);
        match e {
            StreamEvent::Line(j, text) => {
                if j == i {
                    assert(texts_of_source(o, i) =~= seq![text@]);
                } else {
                    assert(texts_of_source(o, i) =~= seq![]);
                }
            },
            _ => {
                assert(texts_of_source(o, i) =~= seq![]);
            },
        }
        assert(texts_of_source(o, i) + rest =~= line_texts(evs, i));
    }
}

/// A pod whose stream cannot be opened gives one warning and changes nothing
/// else: the session goes on, and the lines of every other open pod still
/// come out in order.
pub proof fn open_failure_is_isolated(
    pods: Seq<TaggedPod>,
    states: Seq<ReaderState>,
    j: usize,
    rest: Seq<StreamEvent>,
)
    requires
        pods.len() == states.len(),
        j < states.len(),
        states[j as int] == ReaderState::Starting,
    ensures
        step_output(pods, states, StreamEvent::OpenFailed(j)) == Some(
            EmissionView::Warning {
                source: j,
                pod_name: pods[j as int].pod.name@,
                kind: Diagnostic::StreamOpenError,
            },
        ),
        forall|k: int| 0 <= k < states.len() && k != j
            ==> #[trigger] step_states(states, StreamEvent::OpenFailed(j))[k] == states[k],
        forall|i: usize|
            i < states.len() && i != j && is_active(states[i as int]) && (forall|k: int|
                0 <= k < rest.len() ==> !ends_reader(#[trigger] rest[k], i))
                ==> #[trigger] texts_of_source(
                run_output(pods, states, seq![StreamEvent::OpenFailed(j)] + rest),
                i,
            ) == line_texts(rest, i),
{
    let e = StreamEvent::OpenFailed(j);
    let evs = seq![e] + rest;
    let st = step_states(states, e);
    assert(evs.drop_first() =~= rest);
    assert(evs[0] == e);
    assert forall|i: usize|
        i < states.len() && i != j && is_active(states[i as int]) && (forall|k: int|
            0 <= k < rest.len() ==> !ends_reader(#[trigger] rest[k], i))
            implies #[trigger] texts_of_source(run_output(pods, states, evs), i) == line_texts(rest, i) by {
        let o = opt_seq(step_output(pods, states, e));
        assert(st[i as int] == states[i as int]);
        follow_keeps_source_order(pods, st, rest, i);
        lemma_texts_concat(o, run_output(pods, st, rest), i);
        assert(o.drop_last() =~= seq![]);
        assert(texts_of_source(o.drop_last(), i) =~= seq![]);
        assert(texts_of_source(o, i) =~= seq![]);
        assert(texts_of_source(o, i) + line_texts(rest, i) =~= line_texts(rest, i));
    }
}

/// After cancellation no reader is left starting or streaming, and the
/// session puts out nothing more, whatever arrives.
pub proof fn cancel_leaves_no_stream_open(pods: Seq<TaggedPod>, states: Seq<ReaderState>, e: StreamEvent)
    requires
        pods.len() == states.len(),
    ensures
        all_ended(cancel_states(states)),
        step_output(pods, cancel_states(states), e) is None,
        step_states(cancel_states(states), e) == cancel_states(states),
{
    let c = cancel_states(states);
    assert forall|k: int| 0 <= k < c.len() implies !is_active(#[trigger] c[k]) by {}
    let i = event_source(e);
    if i < c.len() {
        assert(!is_active(c[i as int]));
        assert(c.update(i as int, next_state(c[i as int], e)) =~= c);
    }
}

/// Cancelling twice is the same as cancelling once, and cancelling a session
/// whose readers have all ended changes nothing.
pub proof fn cancel_is_idempotent(states: Seq<ReaderState>)
    ensures
        cancel_states(cancel_states(states)) == cancel_states(states),
        all_ended(states) ==> cancel_states(states) == states,
{
    assert(cancel_states(cancel_states(states)) =~= cancel_states(states));
    if all_ended(states) {
        assert(cancel_states(states) =~= states);
    }
}

/// Whether `a` is a prefix of `b`.
pub open spec fn is_prefix(a: Seq<Seq<char>>, b: Seq<Seq<char>>) -> bool {
    a.len() <= b.len() && b.take(a.len() as int) == a
}

/// The text of `e` if it is a line of pod position `i`.
spec fn own_text(e: EmissionView, i: usize) -> Seq<Seq<char>> {
    match e {
        EmissionView::Line { source, text, .. } => if source == i {
            seq![text]
        } else {
            seq![]
        },
        _ => seq![],
    }
}

proof fn lemma_singleton_texts(o: Seq<EmissionView>, i: usize)
    requires
        o.len() <= 1,
    ensures
        o.len() == 0 ==> texts_of_source(o, i) == Seq::<Seq<char>>::empty(),
        o.len() == 1 ==> texts_of_source(o, i) == own_text(o[0], i),
{
    if o.len() == 1 {
        assert(o.drop_last() =~= seq![]);
        assert(texts_of_source(o.drop_last(), i) =~= seq![]);
        assert(o.last() == o[0]);
        match o[0] {
            EmissionView::Line { source, text, .. } => {
                assert(Seq::<Seq<char>>::empty().push(text) =~= seq![text]);
            },
            _ => {},
        }
    }
}

proof fn lemma_ended_reader_is_silent(
    pods: Seq<TaggedPod>,
    states: Seq<ReaderState>,
    evs: Seq<StreamEvent>,
    i: usize,
)
    requires
        i < states.len(),
        !is_active(states[i as int]),
    ensures
        texts_of_source(run_output(pods, states, evs), i) == Seq::<Seq<char>>::empty(),
    decreases evs.len(),
{
    if evs.len() > 0 {
        let e = evs[0];
        let o = opt_seq(step_output(pods, states, e));
        let st = step_states(states, e);
        assert(st[i as int] == states[i as int]);
        lemma_ended_reader_is_silent(pods, st, evs.drop_first(), i);
        lemma_texts_concat(o, run_output(pods, st, evs.drop_first()), i);
        lemma_singleton_texts(o, i);
        assert(texts_of_source(o, i) =~= seq![]);
        assert(Seq::<Seq<char>>::empty() + Seq::<Seq<char>>::empty() =~= Seq::<Seq<char>>::empty());
    }
}

/// Whatever happens to the readers (failures, closes, cancellation), the
/// lines that come out for a pod are the first lines it emitted, in order:
/// the session never reorders, repeats or invents a line.
pub proof fn follow_never_reorders(
    pods: Seq<TaggedPod>,
    states: Seq<ReaderState>,
    evs: Seq<StreamEvent>,
    i: usize,
)
    requires
        pods.len() == states.len(),
        i < states.len(),
    ensures
        is_prefix(texts_of_source(run_output(pods, states, evs), i), line_texts(evs, i)),
    decreases evs.len(),
{
    if evs.len() == 0 {
        assert(line_texts(evs, i).take(0) =~= seq![]);
    } else if !is_active(states[i as int]) {
        lemma_ended_reader_is_silent(pods, states, evs, i);
        assert(line_texts(evs, i).take(0) =~= seq![]);
    } else {
        let e = evs[0];
        let o = opt_seq(step_output(pods, states, e));
        let st = step_states(states, e);
        let tail_out = texts_of_source(run_output(pods, st, evs.drop_first()), i);
        let tail_lines = line_texts(evs.drop_first(), i);
        follow_never_reorders(pods, st, evs.drop_first(), i);
        lemma_texts_concat(o, run_output(pods, st, evs.drop_first()), i);
        lemma_singleton_texts(o, i);
        match e {
            StreamEvent::Line(j, text) => {
                if j == i {
                    assert(texts_of_source(o, i) =~= seq![text@]);
                    assert((seq![text@] + tail_lines).take((seq![text@] + tail_out).len() as int)
                        =~= seq![text@] + tail_out);
                } else {
                    assert(texts_of_source(o, i) =~= seq![]);
                    assert(Seq::<Seq<char>>::empty() + tail_out =~= tail_out);
                }
            },
            _ => {
                assert(texts_of_source(o, i) =~= seq![]);
                assert(Seq::<Seq<char>>::empty() + tail_out =~= tail_out);
            },
        }
    }
}

} // verus!
