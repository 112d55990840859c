//! Multi-pod log aggregation: display tags, the one-shot (tail) mode and the
//! follow-mode session that merges the pods' streams.
use vstd::prelude::*;
use crate::text::{lines_of, split_lines};

verus! {

/// Identity of a log source: a pod name within a namespace.
#[derive(Debug, PartialEq, Eq)]
pub struct PodRef {
    pub name: String,
    pub namespace: String,
}

/// Index of a pod's color in the display palette.
#[derive(Clone, Copy, Debug, PartialEq, Eq, Structural)]
pub struct DisplayTag {
    pub slot: usize,
}

/// A resolved pod with its display tag.
#[derive(Debug, PartialEq, Eq)]
pub struct TaggedPod {
    pub pod: PodRef,
    pub tag: DisplayTag,
}

/// Number of colors in the default display palette.
pub const PALETTE_SIZE: usize = 10;

/// The colors of the default display palette.
#[derive(Clone, Copy, Debug, PartialEq, Eq, Structural)]
pub enum Color {
    Green,
    Yellow,
    Blue,
    Magenta,
    Cyan,
    BrightGreen,
    BrightYellow,
    BrightBlue,
    BrightMagenta,
    BrightCyan,
}

/// The color of a slot of the default palette; slots wrap around.
pub open spec fn palette_color(slot: int) -> Color {
    let k = slot % (PALETTE_SIZE as int);
    if k == 0 { Color::Green }
    else if k == 1 { Color::Yellow }
    else if k == 2 { Color::Blue }
    else if k == 3 { Color::Magenta }
    else if k == 4 { Color::Cyan }
    else if k == 5 { Color::BrightGreen }
    else if k == 6 { Color::BrightYellow }
    else if k == 7 { Color::BrightBlue }
    else if k == 8 { Color::BrightMagenta }
    else { Color::BrightCyan }
}

impl DisplayTag {
    /// The color of this tag in the default palette.
    pub fn color(&self) -> (c: Color)
        ensures
            c == palette_color(self.slot as int),
    {
        let k = self.slot % PALETTE_SIZE;
        if k == 0 { Color::Green }
        else if k == 1 { Color::Yellow }
        else if k == 2 { Color::Blue }
        else if k == 3 { Color::Magenta }
        else if k == 4 { Color::Cyan }
        else if k == 5 { Color::BrightGreen }
        else if k == 6 { Color::BrightYellow }
        else if k == 7 { Color::BrightBlue }
        else if k == 8 { Color::BrightMagenta }
        else { Color::BrightCyan }
    }
}

/// Why an aggregation could not start.
#[derive(Clone, Copy, Debug, PartialEq, Eq, Structural)]
pub enum AggregationError {
    NoPodsMatched,
}

/// A per-pod problem, reported beside the lines of the other pods.
#[derive(Clone, Copy, Debug, PartialEq, Eq, Structural)]
pub enum Diagnostic {
    /// The pod's stream could not be opened.
    StreamOpenError,
    /// The pod's stream broke while being read.
    StreamReadError,
    /// One line of the pod's stream was not valid UTF-8 and was skipped.
    UndecodableLine,
}

/// One line of a pod's log, tagged with its source.
#[derive(Debug, PartialEq, Eq)]
pub struct LogLine {
    /// Position of the pod in the resolved batch.
    pub source: usize,
    pub pod_name: String,
    pub tag: DisplayTag,
    pub text: String,
}

/// What the aggregation hands to its caller, in output order.
#[derive(Debug, PartialEq, Eq)]
pub enum Emission {
    Line(LogLine),
    Warning { source: usize, pod_name: String, kind: Diagnostic },
}

/// An emission as plain values.
pub enum EmissionView {
    Line { source: usize, pod_name: Seq<char>, tag: DisplayTag, text: Seq<char> },
    Warning { source: usize, pod_name: Seq<char>, kind: Diagnostic },
}

impl View for Emission {
    type V = EmissionView;

    open spec fn view(&self) -> EmissionView {
        match self {
            Emission::Line(l) => EmissionView::Line {
                source: l.source,
                pod_name: l.pod_name@,
                tag: l.tag,
                text: l.text@,
            },
            Emission::Warning { source, pod_name, kind } => EmissionView::Warning {
                source: *source,
                pod_name: pod_name@,
                kind: *kind,
            },
        }
    }
}

/// The views of a sequence of emissions.
pub open spec fn emission_views(s: Seq<Emission>) -> Seq<EmissionView> {
    s.map_values(|e: Emission| e@)
}

/// The pod position an emission belongs to.
pub open spec fn source_of(e: EmissionView) -> usize {
    match e {
        EmissionView::Line { source, .. } => source,
        EmissionView::Warning { source, .. } => source,
    }
}

/// The texts of the lines of `out` that come from pod position `i`, in order.
pub open spec fn texts_of_source(out: Seq<EmissionView>, i: usize) -> Seq<Seq<char>>
    decreases out.len(),
{
    if out.len() == 0 {
        seq![]
    } else {
        let rest = texts_of_source(out.drop_last(), i);
        match out.last() {
            EmissionView::Line { source, text, .. } => if source == i {
                rest.push(text)
            } else {
                rest
            },
            _ => rest,
        }
    }
}

/// The tag of the pod at position `index` of a resolved batch.
pub open spec fn tag_slot(index: int, palette_size: int) -> int {
    index % palette_size
}

/// `pods` is `matches` in the same order, each tagged by its position.
pub open spec fn tagged_in_order(pods: Seq<TaggedPod>, matches: Seq<PodRef>, palette_size: usize) -> bool {
    &&& pods.len() == matches.len()
    &&& forall|i: int|
        0 <= i < pods.len() ==> {
            &&& (#[trigger] pods[i]).pod == matches[i]
            &&& pods[i].tag.slot == tag_slot(i, palette_size as int)
        }
}

/// Tag of the pod at position `index` with a palette of `palette_size` colors.
pub fn tag_for(index: usize, palette_size: usize) -> (t: DisplayTag)
    requires
        palette_size > 0,
    ensures
        t.slot == tag_slot(index as int, palette_size as int),
{
    DisplayTag { slot: index % palette_size }
}

/// Tags for a batch of `count` pods, by input order.
pub fn assign_tags(count: usize, palette_size: usize) -> (tags: Vec<DisplayTag>)
    requires
        palette_size > 0,
    ensures
        tags@.len() == count,
        forall|i: int| 0 <= i < count ==> #[trigger] tags@[i].slot == tag_slot(i, palette_size as int),
{
    let mut tags: Vec<DisplayTag> = Vec::new();
    let mut i: usize = 0;
    while i < count
        invariant
            i <= count,
            palette_size > 0,
            tags@.len() == i,
            forall|j: int| 0 <= j < i ==> #[trigger] tags@[j].slot == tag_slot(j, palette_size as int),
        decreases count - i,
    {
        tags.push(tag_for(i, palette_size));
        i = i + 1;
    }
    tags
}

impl PodRef {
    /// A copy of this pod reference.
    pub fn copy(&self) -> (r: PodRef)
        ensures
            r == *self,
    {
        PodRef { name: self.name.clone(), namespace: self.namespace.clone() }
    }
}

/// One stream that an aggregation opens: the pod at position `source`.
#[derive(Debug, PartialEq, Eq)]
pub struct StreamRequest {
    pub source: usize,
    pub name: String,
    pub namespace: String,
    pub tail: u32,
    pub follow: bool,
}

/// A started aggregation: the tagged pods and the streams to open, one per pod.
#[derive(Debug, PartialEq, Eq)]
pub struct Aggregation {
    pub pods: Vec<TaggedPod>,
    pub requests: Vec<StreamRequest>,
}

/// `reqs` asks for one stream per pod of `pods`, in order.
pub open spec fn requests_for(reqs: Seq<StreamRequest>, pods: Seq<TaggedPod>, follow: bool, tail: u32) -> bool {
    &&& reqs.len() == pods.len()
    &&& forall|i: int|
        0 <= i < reqs.len() ==> {
            &&& (#[trigger] reqs[i]).source == i
            &&& reqs[i].name == pods[i].pod.name
            &&& reqs[i].namespace == pods[i].pod.namespace
            &&& reqs[i].tail == tail
            &&& reqs[i].follow == follow
        }
}

/// Starts an aggregation over `matches`: tags each pod by its position and
/// lists the streams to open. Fails with `NoPodsMatched`, asking for no
/// stream, when `matches` is empty.
pub fn aggregate(matches: Vec<PodRef>, follow: bool, tail: u32, palette_size: usize) -> (r: Result<Aggregation, AggregationError>)
    requires
        palette_size > 0,
    ensures
        matches@.len() == 0 <==> r is Err,
        r is Err ==> r == Err::<Aggregation, AggregationError>(AggregationError::NoPodsMatched),
        r matches Ok(a) ==> {
            &&& tagged_in_order(a.pods@, matches@, palette_size)
            &&& requests_for(a.requests@, a.pods@, follow, tail)
        },
{
    if matches.len() == 0 {
        return Err(AggregationError::NoPodsMatched);
    }
    let mut pods: Vec<TaggedPod> = Vec::new();
    let mut requests: Vec<StreamRequest> = Vec::new();
    let mut i: usize = 0;
    while i < matches.len()
        invariant
            palette_size > 0,
            i <= matches@.len(),
            pods@.len() == i,
            forall|j: int|
                0 <= j < i ==> {
                    &&& (#[trigger] pods@[j]).pod == matches@[j]
                    &&& pods@[j].tag.slot == tag_slot(j, palette_size as int)
                },
            requests_for(requests@, pods@, follow, tail),
        decreases matches@.len() - i,
    {
        let p = matches[i].copy();
        let req = StreamRequest {
            source: i,
            name: p.name.clone(),
            namespace: p.namespace.clone(),
            tail,
            follow,
        };
        pods.push(TaggedPod { pod: p, tag: tag_for(i, palette_size) });
        requests.push(req);
        i = i + 1;
    }
    Ok(Aggregation { pods, requests })
}

/// Tags depend on input positions and the palette size alone: two batches
/// of the same size, tagged with the same palette, get the same tags
/// position by position, whatever pods they hold.
pub proof fn tags_follow_input_order(
    a: Seq<TaggedPod>,
    ma: Seq<PodRef>,
    b: Seq<TaggedPod>,
    mb: Seq<PodRef>,
    palette_size: usize,
)
    requires
        palette_size > 0,
        tagged_in_order(a, ma, palette_size),
        tagged_in_order(b, mb, palette_size),
        ma.len() == mb.len(),
    ensures
        forall|i: int| 0 <= i < a.len() ==> (#[trigger] a[i]).tag == b[i].tag,
        forall|i: int| 0 <= i < a.len() ==> (#[trigger] a[i]).tag.slot < palette_size,
{
    assert forall|i: int| 0 <= i < a.len() implies (#[trigger] a[i]).tag == b[i].tag by {
        assert(b[i].tag.slot == tag_slot(i, palette_size as int));
    }
}

// ---------------------------------------------------------------------
// Tail mode: one bounded fetch per pod, pods one after the other.

/// What fetching one pod's recent log gave.
#[derive(Debug, PartialEq, Eq)]
pub enum FetchOutcome {
    /// The fetched text, to be split into lines.
    Fetched(String),
    /// The log could not be fetched.
    Unavailable,
}

/// The emissions of pod position `source` for the lines `lines`.
pub open spec fn line_views(source: usize, pod: TaggedPod, lines: Seq<Seq<char>>) -> Seq<EmissionView> {
    Seq::new(
        lines.len(),
        |k: int| EmissionView::Line { source, pod_name: pod.pod.name@, tag: pod.tag, text: lines[k] },
    )
}

/// The emissions of one pod in tail mode: its lines, or one warning.
pub open spec fn tail_block(source: usize, pod: TaggedPod, outcome: FetchOutcome) -> Seq<EmissionView> {
    match outcome {
        FetchOutcome::Fetched(text) => line_views(source, pod, lines_of(text@)),
        FetchOutcome::Unavailable => seq![
            EmissionView::Warning { source, pod_name: pod.pod.name@, kind: Diagnostic::StreamOpenError },
        ],
    }
}

/// The whole tail-mode output: the pods' blocks in input order.
pub open spec fn tail_output(pods: Seq<TaggedPod>, outcomes: Seq<FetchOutcome>) -> Seq<EmissionView>
    decreases pods.len(),
{
    if pods.len() == 0 {
        seq![]
    } else {
        tail_output(pods.drop_last(), outcomes.drop_last()) + tail_block(
            (pods.len() - 1) as usize,
            pods.last(),
            outcomes[pods.len() - 1],
        )
    }
}

/// The emissions of the pod at position `source` for what its fetch gave.
pub fn emit_tail_block(source: usize, pod: &TaggedPod, outcome: &FetchOutcome) -> (r: Vec<Emission>)
    ensures
        emission_views(r@) == tail_block(source, *pod, *outcome),
{
    let mut out: Vec<Emission> = Vec::new();
    match outcome {
        FetchOutcome::Fetched(text) => {
            let lines = split_lines(text.as_str());
            let ghost want = lines_of(text@);
            let mut k: usize = 0;
            while k < lines.len()
                invariant
                    k <= lines@.len(),
                    crate::text::views(lines@) == want,
                    emission_views(out@) == line_views(source, *pod, want).take(k as int),
                decreases lines@.len() - k,
            {
                let e = Emission::Line(
                    LogLine {
                        source,
                        pod_name: pod.pod.name.clone(),
                        tag: pod.tag,
                        text: lines[k].clone(),
                    },
                );
                proof {
                    assert(crate::text::views(lines@)[k as int] == lines@[k as int]@);
                    assert(e@ == line_views(source, *pod, want)[k as int]);
                    assert(emission_views(out@.push(e)) =~= emission_views(out@).push(e@));
                    assert(line_views(source, *pod, want).take(k + 1) =~= line_views(source, *pod, want).take(k as int).push(e@));
                }
                out.push(e);
                k = k + 1;
            }
            assert(line_views(source, *pod, want).take(k as int) =~= line_views(source, *pod, want));
        },
        FetchOutcome::Unavailable => {
            out.push(
                Emission::Warning {
                    source,
                    pod_name: pod.pod.name.clone(),
                    kind: Diagnostic::StreamOpenError,
                },
            );
            assert(emission_views(out@) =~= tail_block(source, *pod, *outcome));
        },
    }
    out
}

/// The tail-mode output for `pods`, where `outcomes[i]` is what fetching the
/// log of `pods[i]` gave.
pub fn collect_tail(pods: &Vec<TaggedPod>, outcomes: &Vec<FetchOutcome>) -> (r: Vec<Emission>)
    requires
        pods@.len() == outcomes@.len(),
    ensures
        emission_views(r@) == tail_output(pods@, outcomes@),
{
    let mut out: Vec<Emission> = Vec::new();
    let mut i: usize = 0;
    while i < pods.len()
        invariant
            i <= pods@.len(),
            pods@.len() == outcomes@.len(),
            emission_views(out@) == tail_output(pods@.take(i as int), outcomes@.take(i as int)),
        decreases pods@.len() - i,
    {
        let mut block = emit_tail_block(i, &pods[i], &outcomes[i]);
        let ghost before = out@;
        let ghost added = block@;
        out.append(&mut block);
        proof {
            assert(pods@.take(i + 1).drop_last() =~= pods@.take(i as int));
            assert(outcomes@.take(i + 1).drop_last() =~= outcomes@.take(i as int));
            assert(emission_views(out@) =~= emission_views(before) + emission_views(added));
        }
        i = i + 1;
    }
    assert(pods@.take(i as int) =~= pods@);
    assert(outcomes@.take(i as int) =~= outcomes@);
    out
}

/// The lines that a fetch outcome gives.
pub open spec fn fetched_lines(o: FetchOutcome) -> Seq<Seq<char>> {
    match o {
        FetchOutcome::Fetched(text) => lines_of(text@),
        FetchOutcome::Unavailable => seq![],
    }
}

pub(crate) proof fn lemma_texts_concat(a: Seq<EmissionView>, b: Seq<EmissionView>, i: usize)
    ensures
        texts_of_source(a + b, i) == texts_of_source(a, i) + texts_of_source(b, i),
    decreases b.len(),
{
    if b.len() == 0 {
        assert(a + b =~= a);
        assert(texts_of_source(a, i) + texts_of_source(b, i) =~= texts_of_source(a, i));
    } else {
        lemma_texts_concat(a, b.drop_last(), i);
        assert((a + b).drop_last() =~= a + b.drop_last());
        assert((a + b).last() == b.last());
        assert(texts_of_source(a, i) + texts_of_source(b.drop_last(), i).push(
            match b.last() {
                EmissionView::Line { text, .. } => text,
                _ => seq![],
            },
        ) =~= (texts_of_source(a, i) + texts_of_source(b.drop_last(), i)).push(
            match b.last() {
                EmissionView::Line { text, .. } => text,
                _ => seq![],
            },
        ));
    }
}

proof fn lemma_texts_absent(out: Seq<EmissionView>, i: usize)
    requires
        forall|k: int| 0 <= k < out.len() ==> source_of(#[trigger] out[k]) != i,
    ensures
        texts_of_source(out, i) == Seq::<Seq<char>>::empty(),
    decreases out.len(),
{
    if out.len() > 0 {
        let d = out.drop_last();
        assert forall|k: int| 0 <= k < d.len() implies source_of(#[trigger] d[k]) != i by {
            assert(d[k] == out[k]);
        }
        lemma_texts_absent(d, i);
        assert(source_of(out[out.len() - 1]) != i);
    }
}

proof fn lemma_line_views_texts(source: usize, pod: TaggedPod, lines: Seq<Seq<char>>)
    ensures
        texts_of_source(line_views(source, pod, lines), source) == lines,
    decreases lines.len(),
{
    if lines.len() > 0 {
        lemma_line_views_texts(source, pod, lines.drop_last());
        assert(line_views(source, pod, lines).drop_last() =~= line_views(source, pod, lines.drop_last()));
        assert(lines.drop_last().push(lines.last()) =~= lines);
    } else {
        assert(line_views(source, pod, lines) =~= seq![]);
        assert(lines =~= seq![]);
    }
}

proof fn lemma_tail_block(source: usize, pod: TaggedPod, outcome: FetchOutcome, i: usize)
    ensures
        forall|k: int| 0 <= k < tail_block(source, pod, outcome).len()
            ==> source_of(#[trigger] tail_block(source, pod, outcome)[k]) == source,
        texts_of_source(tail_block(source, pod, outcome), i)
            == (if i == source { fetched_lines(outcome) } else { Seq::<Seq<char>>::empty() }),
{
    let b = tail_block(source, pod, outcome);
    assert forall|k: int| 0 <= k < b.len() implies source_of(#[trigger] b[k]) == source by {}
    if i == source {
        match outcome {
            FetchOutcome::Fetched(text) => lemma_line_views_texts(source, pod, lines_of(text@)),
            FetchOutcome::Unavailable => {
                assert(b.drop_last() =~= seq![]);
                assert(texts_of_source(b.drop_last(), i) =~= seq![]);
            },
        }
    } else {
        lemma_texts_absent(b, i);
    }
}

/// In tail mode the output runs through the pods in input order, and the
/// lines of each pod come out exactly as its fetch gave them, in order.
pub proof fn tail_mode_keeps_pod_order(pods: Seq<TaggedPod>, outcomes: Seq<FetchOutcome>)
    requires
        pods.len() == outcomes.len(),
        pods.len() <= usize::MAX,
    ensures
        forall|k: int| 0 <= k < tail_output(pods, outcomes).len()
            ==> source_of(#[trigger] tail_output(pods, outcomes)[k]) < pods.len(),
        forall|a: int, b: int| 0 <= a < b < tail_output(pods, outcomes).len()
            ==> source_of(#[trigger] tail_output(pods, outcomes)[a])
                <= source_of(#[trigger] tail_output(pods, outcomes)[b]),
        forall|i: usize| i < pods.len()
            ==> #[trigger] texts_of_source(tail_output(pods, outcomes), i) == fetched_lines(outcomes[i as int]),
    decreases pods.len(),
{
    if pods.len() > 0 {
        let n = pods.len();
        let last = (n - 1) as usize;
        let ps = pods.drop_last();
        let os = outcomes.drop_last();
        tail_mode_keeps_pod_order(ps, os);
        let prev = tail_output(ps, os);
        let block = tail_block(last, pods.last(), outcomes[n - 1]);
        let out = tail_output(pods, outcomes);
        assert(out == prev + block);
        lemma_tail_block(last, pods.last(), outcomes[n - 1], last);
        assert forall|k: int| 0 <= k < out.len() implies source_of(#[trigger] out[k]) < pods.len() by {
            if k >= prev.len() {
                assert(out[k] == block[k - prev.len()]);
            } else {
                assert(out[k] == prev[k]);
            }
        }
        assert forall|a: int, b: int| 0 <= a < b < out.len()
            implies source_of(#[trigger] out[a]) <= source_of(#[trigger] out[b]) by {
            if b < prev.len() {
                assert(out[a] == prev[a]);
                assert(out[b] == prev[b]);
            } else if a < prev.len() {
                assert(out[a] == prev[a]);
                assert(out[b] == block[b - prev.len()]);
            } else {
                assert(out[a] == block[a - prev.len()]);
                assert(out[b] == block[b - prev.len()]);
            }
        }
        assert forall|i: usize| i < pods.len()
            implies #[trigger] texts_of_source(out, i) == fetched_lines(outcomes[i as int]) by {
            lemma_texts_concat(prev, block, i);
            lemma_tail_block(last, pods.last(), outcomes[n - 1], i);
            if i < last {
                assert(os[i as int] == outcomes[i as int]);
                assert(texts_of_source(prev, i) + Seq::<Seq<char>>::empty() =~= texts_of_source(prev, i));
            } else {
                assert forall|k: int| 0 <= k < prev.len() implies source_of(#[trigger] prev[k]) != i by {}
                lemma_texts_absent(prev, i);
                assert(Seq::<Seq<char>>::empty() + fetched_lines(outcomes[i as int]) =~= fetched_lines(outcomes[i as int]));
            }
        }
    }
}

} // verus!
