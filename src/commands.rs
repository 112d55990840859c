//! The decisions of the individual commands: pod phases, context lists,
//! plugin names, the shell fallback, and the labels of merged log lines.
use vstd::prelude::*;
use crate::pods::{entry_views, EntryView, PodEntry};
use crate::text::{
    chars_of, ends_with, has_suffix, is_space, is_space_char, lines_of, split_lines, string_of,
    trim_end_all, trimmed_len, views,
};

verus! {

broadcast use vstd::string::group_string_axioms;

/// Whether two texts are equal.
pub fn same_text(a: &str, b: &str) -> (r: bool)
    ensures
        r == (a@ == b@),
{
    let x = chars_of(a);
    let y = chars_of(b);
    if x.len() != y.len() {
        return false;
    }
    let mut i: usize = 0;
    while i < x.len()
        invariant
            x@ == a@,
            y@ == b@,
            x@.len() == y@.len(),
            i <= x@.len(),
            forall|j: int| 0 <= j < i ==> x@[j] == y@[j],
        decreases x@.len() - i,
    {
        if x[i] != y[i] {
            assert(x@[i as int] != y@[i as int]);
            return false;
        }
        i = i + 1;
    }
    assert(x@ =~= y@);
    true
}

/// The phase of a pod, as the commands tell them apart.
#[derive(Clone, Copy, Debug, PartialEq, Eq, Structural)]
pub enum Phase {
    Running,
    Pending,
    Failed,
    Succeeded,
    Other,
}

/// The phase that a phase name stands for.
pub open spec fn phase_of(s: Seq<char>) -> Phase {
    if s == "Running"@ {
        Phase::Running
    } else if s == "Pending"@ {
        Phase::Pending
    } else if s == "Failed"@ {
        Phase::Failed
    } else if s == "Succeeded"@ {
        Phase::Succeeded
    } else {
        Phase::Other
    }
}

/// The phase that a phase name stands for: see `phase_of`.
pub fn classify_phase(s: &str) -> (r: Phase)
    ensures
        r == phase_of(s@),
{
    if same_text(s, "Running") {
        Phase::Running
    } else if same_text(s, "Pending") {
        Phase::Pending
    } else if same_text(s, "Failed") {
        Phase::Failed
    } else if same_text(s, "Succeeded") {
        Phase::Succeeded
    } else {
        Phase::Other
    }
}

/// How many pods are in each phase; succeeded and unknown pods count as other.
#[derive(Clone, Copy, Debug, PartialEq, Eq, Structural)]
pub struct PhaseCounts {
    pub running: usize,
    pub pending: usize,
    pub failed: usize,
    pub other: usize,
}

/// The phase of an entry; a missing phase is other.
pub open spec fn entry_phase(e: EntryView) -> Phase {
    match e.phase {
        Some(p) => phase_of(p),
        None => Phase::Other,
    }
}

/// The counts of the phases of `entries`, as integers.
pub open spec fn phase_counts(entries: Seq<EntryView>) -> (int, int, int, int)
    decreases entries.len(),
{
    if entries.len() == 0 {
        (0, 0, 0, 0)
    } else {
        let (r, p, f, o) = phase_counts(entries.drop_last());
        match entry_phase(entries.last()) {
            Phase::Running => (r + 1, p, f, o),
            Phase::Pending => (r, p + 1, f, o),
            Phase::Failed => (r, p, f + 1, o),
            _ => (r, p, f, o + 1),
        }
    }
}

proof fn lemma_phase_counts_bound(entries: Seq<EntryView>)
    ensures
        ({
            let (r, p, f, o) = phase_counts(entries);
            r >= 0 && p >= 0 && f >= 0 && o >= 0 && r + p + f + o == entries.len()
        }),
    decreases entries.len(),
{
    if entries.len() > 0 {
        lemma_phase_counts_bound(entries.drop_last());
    }
}

/// Counts the pods of `entries` by phase.
pub fn count_phases(entries: &Vec<PodEntry>) -> (c: PhaseCounts)
    ensures
        (c.running as int, c.pending as int, c.failed as int, c.other as int) == phase_counts(
            entry_views(entries@),
        ),
{
    let ghost ev = entry_views(entries@);
    let mut c = PhaseCounts { running: 0, pending: 0, failed: 0, other: 0 };
    let mut i: usize = 0;
    while i < entries.len()
        invariant
            i <= entries@.len(),
            ev == entry_views(entries@),
            (c.running as int, c.pending as int, c.failed as int, c.other as int) == phase_counts(
                ev.take(i as int),
            ),
        decreases entries@.len() - i,
    {
        proof {
            assert(ev.take(i + 1).drop_last() =~= ev.take(i as int));
            assert(ev.take(i + 1).last() == entries@[i as int]@);
            lemma_phase_counts_bound(ev.take(i as int));
        }
        let ph = match &entries[i].phase {
            Some(p) => classify_phase(p.as_str()),
            None => Phase::Other,
        };
        match ph {
            Phase::Running => c.running = c.running + 1,
            Phase::Pending => c.pending = c.pending + 1,
            Phase::Failed => c.failed = c.failed + 1,
            _ => c.other = c.other + 1,
        }
        i = i + 1;
    }
    assert(ev.take(i as int) =~= ev);
    c
}

/// `s` without leading white space.
pub open spec fn trim_start(s: Seq<char>) -> Seq<char>
    decreases s.len(),
{
    if s.len() > 0 && is_space(s[0]) {
        trim_start(s.drop_first())
    } else {
        s
    }
}

/// `s` without trailing white space.
pub open spec fn trim_end(s: Seq<char>) -> Seq<char>
    decreases s.len(),
{
    if s.len() > 0 && is_space(s.last()) {
        trim_end(s.drop_last())
    } else {
        s
    }
}

/// `s` without leading or trailing white space.
pub open spec fn trim(s: Seq<char>) -> Seq<char> {
    trim_end(trim_start(s))
}

/// `s` without leading or trailing white space: see `trim`.
pub fn trimmed(s: &str) -> (r: String)
    ensures
        r@ == trim(s@),
{
    let cs = chars_of(s);
    let n = cs.len();
    let mut a: usize = 0;
    assert(cs@.subrange(0, n as int) =~= cs@);
    while a < n && is_space_char(cs[a])
        invariant
            n == cs@.len(),
            a <= n,
            trim_start(cs@) == trim_start(cs@.subrange(a as int, n as int)),
        decreases n - a,
    {
        assert(cs@.subrange(a as int, n as int).drop_first() =~= cs@.subrange(a + 1, n as int));
        a = a + 1;
    }
    let mut b: usize = n;
    proof {
        assert(cs@.subrange(0, n as int) =~= cs@);
        assert(trim_start(cs@) == cs@.subrange(a as int, n as int));
    }
    while b > a && is_space_char(cs[b - 1])
        invariant
            n == cs@.len(),
            a <= b <= n,
            trim_end(cs@.subrange(a as int, n as int)) == trim_end(cs@.subrange(a as int, b as int)),
        decreases b,
    {
        assert(cs@.subrange(a as int, b as int).drop_last() =~= cs@.subrange(a as int, b - 1));
        b = b - 1;
    }
    let r = string_of(&cs, a, b);
    assert(trim_end(cs@.subrange(a as int, b as int)) == cs@.subrange(a as int, b as int));
    r
}

/// One context of the context list, and whether it is the current one.
#[derive(Debug, PartialEq, Eq)]
pub struct ContextRow {
    pub name: String,
    pub current: bool,
}

/// The context list: one row per line of `list`, marked current where the
/// line equals `current` with white space trimmed.
pub fn context_rows(list: &str, current: &str) -> (r: Vec<ContextRow>)
    ensures
        r@.len() == lines_of(list@).len(),
        forall|i: int| 0 <= i < r@.len() ==> {
            &&& (#[trigger] r@[i]).name@ == lines_of(list@)[i]
            &&& r@[i].current == (lines_of(list@)[i] == trim(current@))
        },
{
    let lines = split_lines(list);
    let cur = trimmed(current);
    let mut out: Vec<ContextRow> = Vec::new();
    let mut i: usize = 0;
    while i < lines.len()
        invariant
            i <= lines@.len(),
            views(lines@) == lines_of(list@),
            cur@ == trim(current@),
            out@.len() == i,
            forall|j: int| 0 <= j < i ==> {
                &&& (#[trigger] out@[j]).name@ == lines_of(list@)[j]
                &&& out@[j].current == (lines_of(list@)[j] == trim(current@))
            },
        decreases lines@.len() - i,
    {
        assert(views(lines@)[i as int] == lines@[i as int]@);
        let is_current = same_text(lines[i].as_str(), cur.as_str());
        out.push(ContextRow { name: lines[i].clone(), current: is_current });
        i = i + 1;
    }
    out
}

/// The file that holds the plugin `name`.
pub fn plugin_file_name(name: &str) -> (r: String)
    ensures
        r@ == name@ + ".sh"@,
{
    let mut s = name.to_string();
    s.append(".sh");
    s
}

/// The plugin names among `files`: those ending in `.sh`, with every
/// trailing `.sh` removed.
pub open spec fn plugin_names_of(files: Seq<Seq<char>>) -> Seq<Seq<char>>
    decreases files.len(),
{
    if files.len() == 0 {
        seq![]
    } else {
        let rest = plugin_names_of(files.drop_last());
        if has_suffix(files.last(), seq!['.', 's', 'h']) {
            rest.push(trim_end_all(files.last(), seq!['.', 's', 'h']))
        } else {
            rest
        }
    }
}

/// The plugin names among `files`: see `plugin_names_of`.
pub fn plugin_names(files: &Vec<String>) -> (r: Vec<String>)
    ensures
        views(r@) == plugin_names_of(views(files@)),
{
    let ext = vec!['.', 's', 'h'];
    assert(ext@ =~= seq!['.', 's', 'h']);
    let mut out: Vec<String> = Vec::new();
    let mut i: usize = 0;
    while i < files.len()
        invariant
            i <= files@.len(),
            ext@ == seq!['.', 's', 'h'],
            views(out@) == plugin_names_of(views(files@).take(i as int)),
        decreases files@.len() - i,
    {
        let cs = chars_of(files[i].as_str());
        proof {
            assert(views(files@).take(i + 1).drop_last() =~= views(files@).take(i as int));
            assert(views(files@).take(i + 1).last() == files@[i as int]@);
        }
        if ends_with(&cs, &ext) {
            let len = trimmed_len(&cs, cs.len(), &ext);
            assert(cs@.subrange(0, cs@.len() as int) =~= cs@);
            let name = string_of(&cs, 0, len);
            assert(views(out@.push(name)) =~= views(out@).push(name@));
            out.push(name);
        }
        i = i + 1;
    }
    assert(views(files@).take(i as int) =~= views(files@));
    out
}

/// One way of opening a shell in a pod, in the order they are tried.
#[derive(Clone, Copy, Debug, PartialEq, Eq, Structural)]
pub enum ShellAttempt {
    /// `/bin/bash`, its errors hidden.
    Bash,
    /// `/bin/sh`, its errors hidden.
    Sh,
    /// `/bin/sh` again, its errors shown.
    ShWithErrors,
}

/// What to do after a shell attempt.
#[derive(Clone, Copy, Debug, PartialEq, Eq, Structural)]
pub enum ShellStep {
    Try(ShellAttempt),
    Done,
    GiveUp,
}

/// The first shell attempt.
pub fn first_shell_attempt() -> (a: ShellAttempt)
    ensures
        a == ShellAttempt::Bash,
{
    ShellAttempt::Bash
}

/// The step after attempt `a`: done when it succeeded, else the next
/// attempt, or giving up after the last.
pub fn after_shell_attempt(a: ShellAttempt, succeeded: bool) -> (s: ShellStep)
    ensures
        succeeded ==> s == ShellStep::Done,
        !succeeded ==> s == match a {
            ShellAttempt::Bash => ShellStep::Try(ShellAttempt::Sh),
            ShellAttempt::Sh => ShellStep::Try(ShellAttempt::ShWithErrors),
            ShellAttempt::ShWithErrors => ShellStep::GiveUp,
        },
{
    if succeeded {
        ShellStep::Done
    } else {
        match a {
            ShellAttempt::Bash => ShellStep::Try(ShellAttempt::Sh),
            ShellAttempt::Sh => ShellStep::Try(ShellAttempt::ShWithErrors),
            ShellAttempt::ShWithErrors => ShellStep::GiveUp,
        }
    }
}

impl ShellAttempt {
    /// The shell program of this attempt.
    pub fn program(&self) -> (r: &'static str)
        ensures
            r@ == if *self == ShellAttempt::Bash { "/bin/bash"@ } else { "/bin/sh"@ },
    {
        match self {
            ShellAttempt::Bash => "/bin/bash",
            _ => "/bin/sh",
        }
    }

    /// Whether this attempt shows the shell's error output.
    pub fn shows_errors(&self) -> (r: bool)
        ensures
            r == (*self == ShellAttempt::ShWithErrors),
    {
        match self {
            ShellAttempt::ShWithErrors => true,
            _ => false,
        }
    }
}

/// The label of a pod in merged log output: its name in brackets.
pub fn source_label(pod_name: &str) -> (r: String)
    ensures
        r@ == seq!['['] + pod_name@ + seq![']'],
{
    let mut s = String::new();
    crate::text::push_char(&mut s, '[');
    s.append(pod_name);
    crate::text::push_char(&mut s, ']');
    assert(s@ =~= seq!['['] + pod_name@ + seq![']']);
    s
}

} // verus!
