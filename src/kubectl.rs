//! The argument lists of the `kubectl` calls that the commands make.
use vstd::prelude::*;
use crate::aggregate::StreamRequest;
use crate::text::{decimal, push_char, push_decimal, views};

verus! {

broadcast use vstd::string::group_string_axioms;

fn push_text(v: &mut Vec<String>, s: &str)
    ensures
        views(final(v)@) == views(old(v)@).push(s@),
{
    let t = s.to_string();
    v.push(t);
    assert(views(final(v)@) =~= views(old(v)@).push(s@));
}

fn push_owned(v: &mut Vec<String>, s: String)
    ensures
        views(final(v)@) == views(old(v)@).push(s@),
{
    let ghost t = s@;
    v.push(s);
    assert(views(final(v)@) =~= views(old(v)@).push(t));
}

/// The arguments that scope a query: one namespace, or all of them.
pub open spec fn scope_args(namespace: Option<String>) -> Seq<Seq<char>> {
    match namespace {
        Some(ns) => seq!["-n"@, ns@],
        None => seq!["--all-namespaces"@],
    }
}

fn push_scope(v: &mut Vec<String>, namespace: &Option<String>)
    ensures
        views(final(v)@) == views(old(v)@) + scope_args(*namespace),
{
    match namespace {
        Some(ns) => {
            push_text(v, "-n");
            push_text(v, ns.as_str());
        },
        None => {
            push_text(v, "--all-namespaces");
        },
    }
    assert(views(final(v)@) =~= views(old(v)@) + scope_args(*namespace));
}

/// `get pods` as JSON, in one namespace or all of them.
pub fn pods_query_args(namespace: &Option<String>) -> (r: Vec<String>)
    ensures
        views(r@) == seq!["get"@, "pods"@] + scope_args(*namespace) + seq!["-o"@, "json"@],
{
    let mut v: Vec<String> = Vec::new();
    push_text(&mut v, "get");
    push_text(&mut v, "pods");
    push_scope(&mut v, namespace);
    push_text(&mut v, "-o");
    push_text(&mut v, "json");
    assert(views(v@) =~= seq!["get"@, "pods"@] + scope_args(*namespace) + seq!["-o"@, "json"@]);
    v
}

/// `top pods`, in one namespace or all of them.
pub fn top_args(namespace: &Option<String>) -> (r: Vec<String>)
    ensures
        views(r@) == seq!["top"@, "pods"@] + scope_args(*namespace),
{
    let mut v: Vec<String> = Vec::new();
    push_text(&mut v, "top");
    push_text(&mut v, "pods");
    push_scope(&mut v, namespace);
    assert(views(v@) =~= seq!["top"@, "pods"@] + scope_args(*namespace));
    v
}

/// The decimal text of a number.
pub fn decimal_text(n: u64) -> (r: String)
    ensures
        r@ == decimal(n as nat),
{
    let mut s = String::new();
    push_decimal(&mut s, n as u128);
    assert(s@ =~= decimal(n as nat));
    s
}

/// The log arguments of a pod: its last `tail` lines, followed or not.
pub open spec fn logs_spec(pod: Seq<char>, namespace: Seq<char>, tail: u32, follow: bool) -> Seq<Seq<char>> {
    seq!["logs"@, pod, "-n"@, namespace, "--tail"@, decimal(tail as nat)] + if follow {
        seq!["-f"@]
    } else {
        seq![]
    }
}

/// `logs` of a pod: see `logs_spec`.
pub fn logs_args(pod: &str, namespace: &str, tail: u32, follow: bool) -> (r: Vec<String>)
    ensures
        views(r@) == logs_spec(pod@, namespace@, tail, follow),
{
    let mut v: Vec<String> = Vec::new();
    push_text(&mut v, "logs");
    push_text(&mut v, pod);
    push_text(&mut v, "-n");
    push_text(&mut v, namespace);
    push_text(&mut v, "--tail");
    let t = decimal_text(tail as u64);
    push_owned(&mut v, t);
    assert(views(v@) =~= seq!["logs"@, pod@, "-n"@, namespace@, "--tail"@, decimal(tail as nat)]);
    if follow {
        push_text(&mut v, "-f");
    }
    assert(views(v@) =~= logs_spec(pod@, namespace@, tail, follow));
    v
}

/// The arguments that open the stream of an aggregation request.
pub fn request_args(req: &StreamRequest) -> (r: Vec<String>)
    ensures
        views(r@) == logs_spec(req.name@, req.namespace@, req.tail, req.follow),
{
    logs_args(req.name.as_str(), req.namespace.as_str(), req.tail, req.follow)
}

/// The last 50 lines of a pod's log, as the dashboard shows them.
pub fn dashboard_logs_args(pod: &str, namespace: &str) -> (r: Vec<String>)
    ensures
        views(r@) == seq!["logs"@, pod@, "-n"@, namespace@, "--tail=50"@],
{
    let mut v: Vec<String> = Vec::new();
    push_text(&mut v, "logs");
    push_text(&mut v, pod);
    push_text(&mut v, "-n");
    push_text(&mut v, namespace);
    push_text(&mut v, "--tail=50");
    assert(views(v@) =~= seq!["logs"@, pod@, "-n"@, namespace@, "--tail=50"@]);
    v
}

/// Runs `command` in a pod, interactively.
pub fn exec_args(pod: &str, namespace: &str, command: &str) -> (r: Vec<String>)
    ensures
        views(r@) == seq!["exec"@, "-it"@, pod@, "-n"@, namespace@, "--"@, command@],
{
    let mut v: Vec<String> = Vec::new();
    push_text(&mut v, "exec");
    push_text(&mut v, "-it");
    push_text(&mut v, pod);
    push_text(&mut v, "-n");
    push_text(&mut v, namespace);
    push_text(&mut v, "--");
    push_text(&mut v, command);
    assert(views(v@) =~= seq!["exec"@, "-it"@, pod@, "-n"@, namespace@, "--"@, command@]);
    v
}

/// `describe pod`.
pub fn describe_args(pod: &str, namespace: &str) -> (r: Vec<String>)
    ensures
        views(r@) == seq!["describe"@, "pod"@, pod@, "-n"@, namespace@],
{
    let mut v: Vec<String> = Vec::new();
    push_text(&mut v, "describe");
    push_text(&mut v, "pod");
    push_text(&mut v, pod);
    push_text(&mut v, "-n");
    push_text(&mut v, namespace);
    assert(views(v@) =~= seq!["describe"@, "pod"@, pod@, "-n"@, namespace@]);
    v
}

/// `delete pod`, which lets the pod's controller recreate it.
pub fn restart_args(pod: &str, namespace: &str) -> (r: Vec<String>)
    ensures
        views(r@) == seq!["delete"@, "pod"@, pod@, "-n"@, namespace@],
{
    let mut v: Vec<String> = Vec::new();
    push_text(&mut v, "delete");
    push_text(&mut v, "pod");
    push_text(&mut v, pod);
    push_text(&mut v, "-n");
    push_text(&mut v, namespace);
    assert(views(v@) =~= seq!["delete"@, "pod"@, pod@, "-n"@, namespace@]);
    v
}

/// The events of one pod, oldest first.
pub fn events_args(pod: &str, namespace: &str) -> (r: Vec<String>)
    ensures
        views(r@) == seq![
            "get"@, "events"@, "-n"@, namespace@, "--field-selector"@,
            "involvedObject.name="@ + pod@, "--sort-by"@, ".lastTimestamp"@,
        ],
{
    let mut v: Vec<String> = Vec::new();
    push_text(&mut v, "get");
    push_text(&mut v, "events");
    push_text(&mut v, "-n");
    push_text(&mut v, namespace);
    push_text(&mut v, "--field-selector");
    let mut sel = "involvedObject.name=".to_string();
    sel.append(pod);
    push_owned(&mut v, sel);
    push_text(&mut v, "--sort-by");
    push_text(&mut v, ".lastTimestamp");
    assert(views(v@) =~= seq![
        "get"@, "events"@, "-n"@, namespace@, "--field-selector"@,
        "involvedObject.name="@ + pod@, "--sort-by"@, ".lastTimestamp"@,
    ]);
    v
}

/// Forwards local port `local` to port `remote` of a pod.
pub fn forward_args(pod: &str, local: u16, remote: u16, namespace: &str) -> (r: Vec<String>)
    ensures
        views(r@) == seq![
            "port-forward"@, pod@, decimal(local as nat) + seq![':'] + decimal(remote as nat),
            "-n"@, namespace@,
        ],
{
    let mut v: Vec<String> = Vec::new();
    push_text(&mut v, "port-forward");
    push_text(&mut v, pod);
    let mut ports = String::new();
    push_decimal(&mut ports, local as u128);
    push_char(&mut ports, ':');
    push_decimal(&mut ports, remote as u128);
    assert(ports@ =~= decimal(local as nat) + seq![':'] + decimal(remote as nat));
    push_owned(&mut v, ports);
    push_text(&mut v, "-n");
    push_text(&mut v, namespace);
    assert(views(v@) =~= seq![
        "port-forward"@, pod@, decimal(local as nat) + seq![':'] + decimal(remote as nat),
        "-n"@, namespace@,
    ]);
    v
}

/// Name of a throw-away debug pod created at `timestamp` (seconds).
pub fn debug_pod_name(timestamp: u64) -> (r: String)
    ensures
        r@ == "debug-"@ + decimal(timestamp as nat),
{
    let mut s = "debug-".to_string();
    push_decimal(&mut s, timestamp as u128);
    s
}

/// Runs a throw-away pod of `image` with an interactive shell; it is
/// deleted when the shell exits.
pub fn debug_args(pod_name: &str, image: &str, namespace: &str) -> (r: Vec<String>)
    ensures
        views(r@) == seq![
            "run"@, pod_name@, "--image"@, image@, "-n"@, namespace@, "--restart=Never"@, "--rm"@,
            "-it"@, "--"@, "/bin/sh"@,
        ],
{
    let mut v: Vec<String> = Vec::new();
    push_text(&mut v, "run");
    push_text(&mut v, pod_name);
    push_text(&mut v, "--image");
    push_text(&mut v, image);
    push_text(&mut v, "-n");
    push_text(&mut v, namespace);
    push_text(&mut v, "--restart=Never");
    push_text(&mut v, "--rm");
    push_text(&mut v, "-it");
    push_text(&mut v, "--");
    push_text(&mut v, "/bin/sh");
    assert(views(v@) =~= seq![
        "run"@, pod_name@, "--image"@, image@, "-n"@, namespace@, "--restart=Never"@, "--rm"@,
        "-it"@, "--"@, "/bin/sh"@,
    ]);
    v
}

/// Switches the current context.
pub fn use_context_args(context: &str) -> (r: Vec<String>)
    ensures
        views(r@) == seq!["config"@, "use-context"@, context@],
{
    let mut v: Vec<String> = Vec::new();
    push_text(&mut v, "config");
    push_text(&mut v, "use-context");
    push_text(&mut v, context);
    assert(views(v@) =~= seq!["config"@, "use-context"@, context@]);
    v
}

/// Lists the context names.
pub fn get_contexts_args() -> (r: Vec<String>)
    ensures
        views(r@) == seq!["config"@, "get-contexts"@, "-o"@, "name"@],
{
    let mut v: Vec<String> = Vec::new();
    push_text(&mut v, "config");
    push_text(&mut v, "get-contexts");
    push_text(&mut v, "-o");
    push_text(&mut v, "name");
    assert(views(v@) =~= seq!["config"@, "get-contexts"@, "-o"@, "name"@]);
    v
}

/// Prints the current context.
pub fn current_context_args() -> (r: Vec<String>)
    ensures
        views(r@) == seq!["config"@, "current-context"@],
{
    let mut v: Vec<String> = Vec::new();
    push_text(&mut v, "config");
    push_text(&mut v, "current-context");
    assert(views(v@) =~= seq!["config"@, "current-context"@]);
    v
}

} // verus!
