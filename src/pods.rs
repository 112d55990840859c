//! Pod records read from `kubectl get pods -o json`, and resolution of pods
//! by a name pattern.
use vstd::prelude::*;
use crate::aggregate::PodRef;
use crate::age::{age_at, age_at_text};
use crate::text::{contains, is_infix};

verus! {

broadcast use vstd::string::group_string_axioms;

/// `serde_json::Value`, a parsed JSON document, carried as an opaque value.
#[verifier::external_type_specification]
#[verifier::external_body]
pub struct ExValue(serde_json::Value);

/// `serde_json::Error`, why a document could not be parsed, carried as an
/// opaque value.
#[verifier::external_type_specification]
#[verifier::external_body]
pub struct ExJsonError(serde_json::Error);

/// The member `key` of a JSON value: `null` where there is none.
pub uninterp spec fn json_field(v: serde_json::Value, key: Seq<char>) -> serde_json::Value;

/// The text of a JSON value, if it is a string.
pub uninterp spec fn json_text(v: serde_json::Value) -> Option<Seq<char>>;

/// The items of a JSON value, if it is an array.
pub uninterp spec fn json_items(v: serde_json::Value) -> Option<Seq<serde_json::Value>>;

/// The number of a JSON value, if it is a number that fits a `u64`.
pub uninterp spec fn json_u64(v: serde_json::Value) -> Option<u64>;

/// The JSON document that `b` holds, if it holds one.
pub uninterp spec fn json_read(b: Seq<u8>) -> Option<serde_json::Value>;

/// Relies on `serde_json::Value::as_str`: the text of a JSON string, and
/// `None` for any other value.
pub assume_specification<'a>[ serde_json::Value::as_str ](v: &'a serde_json::Value) -> (r: Option<&'a str>)
    ensures
        match r {
            Some(t) => json_text(*v) == Some(t@),
            None => json_text(*v) is None,
        },
;

/// Relies on `serde_json::Value::as_array`: the items of a JSON array, and
/// `None` for any other value.
pub assume_specification<'a>[ serde_json::Value::as_array ](v: &'a serde_json::Value) -> (r: Option<&'a Vec<serde_json::Value>>)
    ensures
        match r {
            Some(items) => json_items(*v) == Some(items@),
            None => json_items(*v) is None,
        },
;

/// Relies on `serde_json::Value::as_u64`: a JSON number that fits a `u64`,
/// and `None` for any other value.
pub assume_specification[ serde_json::Value::as_u64 ](v: &serde_json::Value) -> (r: Option<u64>)
    ensures
        r == json_u64(*v),
;

/// Relies on `serde_json::from_slice`: reads a JSON document; the result
/// depends on the bytes alone.
#[verifier::external_body]
fn read_json(bytes: &[u8]) -> (r: Result<serde_json::Value, serde_json::Error>)
    ensures
        match r {
            Ok(v) => json_read(bytes@) == Some(v),
            Err(_) => json_read(bytes@) is None,
        },
{
    serde_json::from_slice(bytes)
}

/// Relies on `Index<&str>` for `serde_json::Value`: the member `key` of an
/// object, or `null` where there is none; it does not panic.
#[verifier::external_body]
fn member<'a>(v: &'a serde_json::Value, key: &str) -> (r: &'a serde_json::Value)
    ensures
        *r == json_field(*v, key@),
{
    &v[key]
}

/// A JSON document that could not be read.
#[derive(Clone, Copy, Debug, PartialEq, Eq, Structural)]
pub enum DocumentError {
    InvalidJson,
}

/// Reads the output of `kubectl get pods -o json`: succeeds exactly when
/// the bytes hold a JSON document.
pub fn parse_document(bytes: &[u8]) -> (r: Result<serde_json::Value, DocumentError>)
    ensures
        match r {
            Ok(v) => json_read(bytes@) == Some(v),
            Err(e) => json_read(bytes@) is None && e == DocumentError::InvalidJson,
        },
{
    match read_json(bytes) {
        Ok(v) => Ok(v),
        Err(_) => Err(DocumentError::InvalidJson),
    }
}

/// The fields of one pod item, each as found (or not) in the document.
#[derive(Debug, PartialEq, Eq)]
pub struct PodEntry {
    pub name: Option<String>,
    pub namespace: Option<String>,
    pub phase: Option<String>,
    pub restarts: Option<u64>,
    pub created: Option<String>,
}

/// The fields of one pod item as plain values.
pub struct EntryView {
    pub name: Option<Seq<char>>,
    pub namespace: Option<Seq<char>>,
    pub phase: Option<Seq<char>>,
    pub restarts: Option<u64>,
    pub created: Option<Seq<char>>,
}

/// The view of an optional string.
pub open spec fn opt_view(o: Option<String>) -> Option<Seq<char>> {
    match o {
        Some(s) => Some(s@),
        None => None,
    }
}

impl View for PodEntry {
    type V = EntryView;

    open spec fn view(&self) -> EntryView {
        EntryView {
            name: opt_view(self.name),
            namespace: opt_view(self.namespace),
            phase: opt_view(self.phase),
            restarts: self.restarts,
            created: opt_view(self.created),
        }
    }
}

/// The views of a sequence of entries.
pub open spec fn entry_views(s: Seq<PodEntry>) -> Seq<EntryView> {
    s.map_values(|e: PodEntry| e@)
}

/// The text at `metadata.<key>` or `status.<key>` style paths.
pub open spec fn text_at(v: serde_json::Value, outer: Seq<char>, key: Seq<char>) -> Option<Seq<char>> {
    json_text(json_field(json_field(v, outer), key))
}

/// The restart count of a pod item: that of its first container status.
pub open spec fn restarts_of(item: serde_json::Value) -> Option<u64> {
    match json_items(json_field(json_field(item, "status"@), "containerStatuses"@)) {
        Some(list) => if list.len() > 0 {
            json_u64(json_field(list[0], "restartCount"@))
        } else {
            None
        },
        None => None,
    }
}

/// The fields of one item of the pod list.
pub open spec fn entry_of(item: serde_json::Value) -> EntryView {
    EntryView {
        name: text_at(item, "metadata"@, "name"@),
        namespace: text_at(item, "metadata"@, "namespace"@),
        phase: text_at(item, "status"@, "phase"@),
        restarts: restarts_of(item),
        created: text_at(item, "metadata"@, "creationTimestamp"@),
    }
}

/// The entries of a pod list document: one per item of its `items` array,
/// in order, and none without such an array.
pub open spec fn entries_of(doc: serde_json::Value) -> Seq<EntryView> {
    match json_items(json_field(doc, "items"@)) {
        Some(items) => items.map_values(|i: serde_json::Value| entry_of(i)),
        None => seq![],
    }
}

fn opt_string(s: Option<&str>) -> (r: Option<String>)
    ensures
        opt_view(r) == match s {
            Some(x) => Some(x@),
            None => None::<Seq<char>>,
        },
{
    match s {
        Some(x) => Some(x.to_string()),
        None => None,
    }
}

/// Reads the fields of one item of the pod list.
pub fn pod_entry(item: &serde_json::Value) -> (r: PodEntry)
    ensures
        r@ == entry_of(*item),
{
    let meta = member(item, "metadata");
    let status = member(item, "status");
    let restarts = match member(status, "containerStatuses").as_array() {
        Some(list) => if list.len() > 0 {
            member(&list[0], "restartCount").as_u64()
        } else {
            None
        },
        None => None,
    };
    PodEntry {
        name: opt_string(member(meta, "name").as_str()),
        namespace: opt_string(member(meta, "namespace").as_str()),
        phase: opt_string(member(status, "phase").as_str()),
        restarts,
        created: opt_string(member(meta, "creationTimestamp").as_str()),
    }
}

/// Reads every item of the pod list, in order; a document without an
/// `items` array has none.
pub fn pod_entries(doc: &serde_json::Value) -> (r: Vec<PodEntry>)
    ensures
        entry_views(r@) == entries_of(*doc),
{
    let mut out: Vec<PodEntry> = Vec::new();
    match member(doc, "items").as_array() {
        Some(items) => {
            let ghost want = items@.map_values(|i: serde_json::Value| entry_of(i));
            let mut i: usize = 0;
            while i < items.len()
                invariant
                    i <= items@.len(),
                    want == items@.map_values(|i: serde_json::Value| entry_of(i)),
                    entry_views(out@) == want.take(i as int),
                decreases items@.len() - i,
            {
                let e = pod_entry(&items[i]);
                assert(want[i as int] == entry_of(items@[i as int]));
                assert(entry_views(out@.push(e)) =~= entry_views(out@).push(e@));
                assert(want.take(i + 1) =~= want.take(i as int).push(want[i as int]));
                out.push(e);
                i = i + 1;
            }
            assert(want.take(i as int) =~= want);
        },
        None => {
            assert(entry_views(out@) =~= seq![]);
        },
    }
    out
}

/// An optional text, or `default` where it is missing.
pub open spec fn or_default(s: Option<Seq<char>>, default: Seq<char>) -> Seq<char> {
    match s {
        Some(x) => x,
        None => default,
    }
}

/// The text of an optional string, or `default` where it is missing.
fn text_or(s: &Option<String>, default: &str) -> (r: String)
    ensures
        r@ == or_default(opt_view(*s), default@),
{
    match s {
        Some(x) => x.clone(),
        None => default.to_string(),
    }
}

/// The name under which an entry is matched: missing names match as empty.
pub open spec fn match_name(e: EntryView) -> Seq<char> {
    or_default(e.name, seq![])
}

/// The pod reference of an entry: a missing name reads `unknown`, a missing
/// namespace `default`.
pub open spec fn entry_ref(e: EntryView) -> (Seq<char>, Seq<char>) {
    (or_default(e.name, "unknown"@), or_default(e.namespace, "default"@))
}

/// The references of the entries whose name contains `pattern`, in order.
pub open spec fn matching_refs(entries: Seq<EntryView>, pattern: Seq<char>) -> Seq<(Seq<char>, Seq<char>)>
    decreases entries.len(),
{
    if entries.len() == 0 {
        seq![]
    } else {
        let rest = matching_refs(entries.drop_last(), pattern);
        if is_infix(pattern, match_name(entries.last())) {
            rest.push(entry_ref(entries.last()))
        } else {
            rest
        }
    }
}

/// The views of a sequence of pod references.
pub open spec fn ref_views(refs: Seq<PodRef>) -> Seq<(Seq<char>, Seq<char>)> {
    refs.map_values(|r: PodRef| (r.name@, r.namespace@))
}

/// The pods whose name contains `pattern` (case-sensitive, anywhere), in
/// document order.
pub fn select_matches(entries: &Vec<PodEntry>, pattern: &str) -> (r: Vec<PodRef>)
    ensures
        ref_views(r@) == matching_refs(entry_views(entries@), pattern@),
{
    let ghost ev = entry_views(entries@);
    let mut out: Vec<PodRef> = Vec::new();
    let mut i: usize = 0;
    while i < entries.len()
        invariant
            i <= entries@.len(),
            ev == entry_views(entries@),
            ref_views(out@) == matching_refs(ev.take(i as int), pattern@),
        decreases entries@.len() - i,
    {
        let e = &entries[i];
        let empty = String::new();
        let name_for_match = match &e.name {
            Some(n) => n,
            None => &empty,
        };
        assert(ev.take(i + 1).drop_last() =~= ev.take(i as int));
        assert(ev.take(i + 1).last() == entries@[i as int]@);
        if contains(name_for_match.as_str(), pattern) {
            let r = PodRef { name: text_or(&e.name, "unknown"), namespace: text_or(&e.namespace, "default") };
            assert(ref_views(out@.push(r)) =~= ref_views(out@).push((r.name@, r.namespace@)));
            out.push(r);
        }
        i = i + 1;
    }
    assert(ev.take(i as int) =~= ev);
    out
}

/// Why a single pod could not be picked.
#[derive(Debug, PartialEq, Eq)]
pub enum FindError {
    /// No pod matched the pattern.
    NotFound,
    /// Several pods matched; they are listed so the user can narrow the pattern.
    Ambiguous(Vec<PodRef>),
}

/// The one pod of `matches`: fails when there is none or more than one.
pub fn pick_single(matches: Vec<PodRef>) -> (r: Result<PodRef, FindError>)
    ensures
        matches@.len() == 0 <==> r == Err::<PodRef, FindError>(FindError::NotFound),
        matches@.len() == 1 <==> r is Ok,
        matches@.len() == 1 ==> r == Ok::<PodRef, FindError>(matches@[0]),
        matches@.len() > 1 <==> r matches Err(FindError::Ambiguous(_)),
        r matches Err(FindError::Ambiguous(all)) ==> all@ == matches@,
{
    if matches.len() == 0 {
        Err(FindError::NotFound)
    } else if matches.len() == 1 {
        let mut m = matches;
        let p = m.remove(0);
        Ok(p)
    } else {
        Err(FindError::Ambiguous(matches))
    }
}

/// The pods of the pod list document `doc` whose name contains `pattern`,
/// in document order.
pub fn resolve_pods(doc: &serde_json::Value, pattern: &str) -> (r: Vec<PodRef>)
    ensures
        ref_views(r@) == matching_refs(entries_of(*doc), pattern@),
{
    let entries = pod_entries(doc);
    select_matches(&entries, pattern)
}

/// The one pod of `entries` whose name contains `pattern`: fails when there
/// is none, or lists them all when there are several.
pub fn locate_pod(entries: &Vec<PodEntry>, pattern: &str) -> (r: Result<PodRef, FindError>)
    ensures
        matching_refs(entry_views(entries@), pattern@).len() == 0 <==> r == Err::<PodRef, FindError>(
            FindError::NotFound,
        ),
        matching_refs(entry_views(entries@), pattern@).len() == 1 <==> r is Ok,
        r matches Ok(p) ==> (p.name@, p.namespace@) == matching_refs(entry_views(entries@), pattern@)[0],
        r matches Err(FindError::Ambiguous(all)) ==> ref_views(all@) == matching_refs(
            entry_views(entries@),
            pattern@,
        ),
{
    let m = select_matches(entries, pattern);
    let ghost mv = m@;
    let r = pick_single(m);
    proof {
        if mv.len() == 1 {
            assert(ref_views(mv)[0] == (mv[0].name@, mv[0].namespace@));
        }
    }
    r
}

/// The display fields of a pod entry, with the defaults of a missing field.
#[derive(Debug, PartialEq, Eq)]
pub struct PodFields {
    pub name: String,
    pub namespace: String,
    pub status: String,
    pub restarts: u64,
}

/// `f` shows `e`: a missing name reads `unknown`, a missing namespace
/// `default`, a missing phase `Unknown`, a missing restart count zero.
pub open spec fn fields_show(f: PodFields, e: EntryView) -> bool {
    &&& f.name@ == or_default(e.name, "unknown"@)
    &&& f.namespace@ == or_default(e.namespace, "default"@)
    &&& f.status@ == or_default(e.phase, "Unknown"@)
    &&& f.restarts == match e.restarts {
        Some(r) => r,
        None => 0,
    }
}

impl PodFields {
    /// The display fields of `e`: see `fields_show`.
    pub fn of_entry(e: &PodEntry) -> (r: PodFields)
        ensures
            fields_show(r, e@),
    {
        PodFields {
            name: text_or(&e.name, "unknown"),
            namespace: text_or(&e.namespace, "default"),
            status: text_or(&e.phase, "Unknown"),
            restarts: match e.restarts {
                Some(r) => r,
                None => 0,
            },
        }
    }
}

/// The age of an entry at time `now`: `unknown` without a creation time.
pub open spec fn entry_age_text(e: EntryView, now: i64) -> Seq<char> {
    match e.created {
        Some(c) => age_at_text(c, now),
        None => "unknown"@,
    }
}

/// The age of the pod of `e` at time `now` (seconds since the epoch).
pub fn entry_age(e: &PodEntry, now: i64) -> (r: String)
    ensures
        r@ == entry_age_text(e@, now),
{
    match &e.created {
        Some(c) => age_at(c.as_str(), now),
        None => "unknown".to_string(),
    }
}

} // verus!
