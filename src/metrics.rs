//! Reading `kubectl top pods --all-namespaces --no-headers` output.
use vstd::prelude::*;
use crate::text::{
    chars_of, fields_of, has_suffix, lines_of, parse_u64, parse_u64_of, split_fields, split_lines,
    string_of, trim_end_all, trimmed_len, ends_with, views,
};

verus! {

/// Resource use of one pod.
#[derive(Debug, PartialEq, Eq)]
pub struct PodMetrics {
    pub name: String,
    pub namespace: String,
    /// CPU in millicores.
    pub cpu: u64,
    /// Memory in bytes.
    pub memory: u64,
}

/// Bytes in a mebibyte.
pub const MIB: u64 = 1048576;

/// Bytes in a gibibyte.
pub const GIB: u64 = 1073741824;

/// The number that `s` writes, or zero.
pub open spec fn number_or_zero(s: Seq<char>) -> u64 {
    match parse_u64_of(s) {
        Some(v) => v,
        None => 0,
    }
}

/// `v * unit`, or `u64::MAX` where that does not fit.
pub open spec fn scaled(v: u64, unit: u64) -> u64 {
    if v * unit > u64::MAX {
        u64::MAX
    } else {
        (v * unit) as u64
    }
}

/// CPU of a field such as `250m`: trailing `m`s dropped, zero if unreadable.
pub open spec fn cpu_of(field: Seq<char>) -> u64 {
    number_or_zero(trim_end_all(field, seq!['m']))
}

/// Memory of a field such as `128Mi` or `2Gi`, in bytes; zero for any other unit.
pub open spec fn memory_of(field: Seq<char>) -> u64 {
    if has_suffix(field, seq!['M', 'i']) {
        scaled(number_or_zero(trim_end_all(field, seq!['M', 'i'])), MIB)
    } else if has_suffix(field, seq!['G', 'i']) {
        scaled(number_or_zero(trim_end_all(field, seq!['G', 'i'])), GIB)
    } else {
        0
    }
}

/// A pod's metrics as plain values: name, namespace, CPU, memory.
pub type MetricsView = (Seq<char>, Seq<char>, u64, u64);

/// The metrics of one line, split into fields: namespace, name, CPU,
/// memory; a line of fewer than four fields has none.
pub open spec fn metrics_of_fields(f: Seq<Seq<char>>) -> Option<MetricsView> {
    if f.len() >= 4 {
        Some((f[1], f[0], cpu_of(f[2]), memory_of(f[3])))
    } else {
        None
    }
}

/// The metrics of each line, in order.
pub open spec fn metrics_of_lines(lines: Seq<Seq<char>>) -> Seq<MetricsView>
    decreases lines.len(),
{
    if lines.len() == 0 {
        seq![]
    } else {
        let rest = metrics_of_lines(lines.drop_last());
        match metrics_of_fields(fields_of(lines.last())) {
            Some(m) => rest.push(m),
            None => rest,
        }
    }
}

/// The views of a sequence of metrics.
pub open spec fn metrics_views(m: Seq<PodMetrics>) -> Seq<MetricsView> {
    m.map_values(|x: PodMetrics| (x.name@, x.namespace@, x.cpu, x.memory))
}

/// The number before the trailing copies of `suffix` in `field`, or zero.
fn number_before(field: &str, suffix: &Vec<char>) -> (r: u64)
    ensures
        r == number_or_zero(trim_end_all(field@, suffix@)),
{
    let cs = chars_of(field);
    let len = trimmed_len(&cs, cs.len(), suffix);
    assert(cs@.subrange(0, cs@.len() as int) =~= cs@);
    let head = string_of(&cs, 0, len);
    match parse_u64(head.as_str()) {
        Some(v) => v,
        None => 0,
    }
}

fn scale(v: u64, unit: u64) -> (r: u64)
    ensures
        r == scaled(v, unit),
{
    match v.checked_mul(unit) {
        Some(x) => x,
        None => u64::MAX,
    }
}

/// CPU of a field: see `cpu_of`.
pub fn parse_cpu(field: &str) -> (r: u64)
    ensures
        r == cpu_of(field@),
{
    let m = vec!['m'];
    assert(m@ =~= seq!['m']);
    number_before(field, &m)
}

/// Memory of a field: see `memory_of`.
pub fn parse_memory(field: &str) -> (r: u64)
    ensures
        r == memory_of(field@),
{
    let cs = chars_of(field);
    let mi = vec!['M', 'i'];
    let gi = vec!['G', 'i'];
    assert(mi@ =~= seq!['M', 'i']);
    assert(gi@ =~= seq!['G', 'i']);
    if ends_with(&cs, &mi) {
        scale(number_before(field, &mi), MIB)
    } else if ends_with(&cs, &gi) {
        scale(number_before(field, &gi), GIB)
    } else {
        0
    }
}

/// The metrics listed in `text`, one per line of at least four fields.
pub fn parse_metrics(text: &str) -> (r: Vec<PodMetrics>)
    ensures
        metrics_views(r@) == metrics_of_lines(lines_of(text@)),
{
    let lines = split_lines(text);
    let ghost ls = lines_of(text@);
    let mut out: Vec<PodMetrics> = Vec::new();
    let mut i: usize = 0;
    while i < lines.len()
        invariant
            i <= lines@.len(),
            views(lines@) == ls,
            metrics_views(out@) == metrics_of_lines(ls.take(i as int)),
        decreases lines@.len() - i,
    {
        let fields = split_fields(lines[i].as_str());
        assert(views(lines@)[i as int] == lines@[i as int]@);
        assert(ls.take(i + 1).drop_last() =~= ls.take(i as int));
        assert(ls.take(i + 1).last() == lines@[i as int]@);
        if fields.len() >= 4 {
            assert(views(fields@)[0] == fields@[0]@);
            assert(views(fields@)[1] == fields@[1]@);
            assert(views(fields@)[2] == fields@[2]@);
            assert(views(fields@)[3] == fields@[3]@);
            let m = PodMetrics {
                name: fields[1].clone(),
                namespace: fields[0].clone(),
                cpu: parse_cpu(fields[2].as_str()),
                memory: parse_memory(fields[3].as_str()),
            };
            assert(metrics_views(out@.push(m)) =~= metrics_views(out@).push((m.name@, m.namespace@, m.cpu, m.memory)));
            out.push(m);
        }
        i = i + 1;
    }
    assert(ls.take(i as int) =~= ls);
    out
}

/// Total CPU (millicores) and memory (bytes) of a set of metrics, each
/// capped at `u64::MAX`.
pub open spec fn totals_of(m: Seq<PodMetrics>) -> (u64, u64)
    decreases m.len(),
{
    if m.len() == 0 {
        (0, 0)
    } else {
        let (c, b) = totals_of(m.drop_last());
        let x = m.last();
        (
            if c + x.cpu > u64::MAX { u64::MAX } else { (c + x.cpu) as u64 },
            if b + x.memory > u64::MAX { u64::MAX } else { (b + x.memory) as u64 },
        )
    }
}

/// Total CPU and memory of `m`: see `totals_of`.
pub fn metrics_totals(m: &Vec<PodMetrics>) -> (r: (u64, u64))
    ensures
        r == totals_of(m@),
{
    let mut cpu: u64 = 0;
    let mut mem: u64 = 0;
    let mut i: usize = 0;
    while i < m.len()
        invariant
            i <= m@.len(),
            (cpu, mem) == totals_of(m@.take(i as int)),
        decreases m@.len() - i,
    {
        assert(m@.take(i + 1).drop_last() =~= m@.take(i as int));
        cpu = cpu.saturating_add(m[i].cpu);
        mem = mem.saturating_add(m[i].memory);
        i = i + 1;
    }
    assert(m@.take(i as int) =~= m@);
    (cpu, mem)
}

} // verus!
