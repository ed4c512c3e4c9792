//! k8s integration for edgeflow: the decisions behind the inference pod
//! Deployments and the pod cache.
//!
//! The cluster calls themselves are made by the binaries; the functions here
//! compute what those calls send (names, labels, the Deployment manifest,
//! resource patches) and what their replies mean (pod health, grouping of
//! pods by target, infra settings read back from a Deployment).
use vstd::prelude::*;
use std::collections::BTreeMap;
use crate::text;
use crate::config;
use crate::core_model::{InfraSettings, Placement, ResourceSettings, TargetHealth, TargetPod};
use crate::core_model::{TargetPodView, pod_views};

verus! {

// ---------------------------------------------------------------------------
// Naming
// ---------------------------------------------------------------------------

/// The lowercase form of a string (`str::to_lowercase`, full Unicode case
/// mapping).
pub uninterp spec fn lowercase(s: Seq<char>) -> Seq<char>;

/// `str::to_lowercase`.
#[verifier::external_body]
fn to_lowercase(s: &str) -> (r: String)
    ensures
        r@ == lowercase(s@),
{
    s.to_lowercase()
}

/// The label that marks every inference pod with its target.
pub const TARGET_LABEL: &'static str = "edgeflow-target";

/// Longest prefix of the sanitized target kept in a name: with the 19
/// characters of `edgeflow-inference-`, a name has at most 63 characters.
pub const NAME_TARGET_CHARS: usize = 44;

/// The characters a k8s name is made of, besides `-`: lowercase ASCII
/// letters and digits.
pub open spec fn is_name_char(c: char) -> bool {
    ('a' <= c && c <= 'z') || ('0' <= c && c <= '9')
}

/// The target lowercased, with every character that is not a lowercase
/// ASCII letter or digit replaced by `-`.
pub open spec fn sanitized(target: Seq<char>) -> Seq<char> {
    lowercase(target).map_values(|c: char| if is_name_char(c) { c } else { '-' })
}

/// How many characters of the sanitized target a name keeps: at most 44.
pub open spec fn name_cut(target: Seq<char>) -> int {
    let n = sanitized(target).len() as int;
    if n < NAME_TARGET_CHARS {
        n
    } else {
        NAME_TARGET_CHARS as int
    }
}

/// The k8s resource name of a target: `edgeflow-inference-` followed by
/// the first (at most) 44 characters of the sanitized target.
pub open spec fn spec_k8s_name(target: Seq<char>) -> Seq<char> {
    "edgeflow-inference-"@ + sanitized(target).subrange(0, name_cut(target))
}

fn is_name_char_exec(c: char) -> (r: bool)
    ensures
        r == is_name_char(c),
{
    ('a' <= c && c <= 'z') || ('0' <= c && c <= '9')
}

fn sanitize(target: &str) -> (r: Vec<char>)
    ensures
        r@ == sanitized(target@),
{
    let lower = to_lowercase(target);
    let cs = text::chars_of(lower.as_str());
    let mut out: Vec<char> = Vec::new();
    let mut i: usize = 0;
    while i < cs.len()
        invariant
            cs@ == lowercase(target@),
            0 <= i <= cs@.len(),
            out@ == cs@.subrange(0, i as int).map_values(
                |c: char| if is_name_char(c) { c } else { '-' },
            ),
        decreases cs@.len() - i,
    {
        let c = cs[i];
        if is_name_char_exec(c) {
            out.push(c);
        } else {
            out.push('-');
        }
        i = i + 1;
        assert(out@ =~= cs@.subrange(0, i as int).map_values(
            |c: char| if is_name_char(c) { c } else { '-' },
        ));
    }
    assert(cs@.subrange(0, cs@.len() as int) =~= cs@);
    out
}

/// Sanitize a target name into a valid k8s resource name.
/// k8s names: lowercase alphanumeric + `-`, max 63 chars.
pub fn k8s_name(target: &str) -> (r: String)
    ensures
        r@ == spec_k8s_name(target@),
{
    let s = sanitize(target);
    let n = s.len();
    let cut: usize = if n < NAME_TARGET_CHARS {
        n
    } else {
        NAME_TARGET_CHARS
    };
    let head = text::sub_chars(s.as_slice(), 0, cut);
    let mut v: Vec<char> = Vec::new();
    text::push_str(&mut v, "edgeflow-inference-");
    text::push_all(&mut v, head.as_slice());
    text::string_from_chars(v.as_slice())
}

/// A name is a valid k8s resource name: `edgeflow-inference-` followed by
/// the start of the sanitized target, at most 63 characters in all, each a
/// lowercase ASCII letter, a digit or `-`.
pub proof fn lemma_k8s_name_shape(target: Seq<char>)
    ensures
        text::starts_with(spec_k8s_name(target), "edgeflow-inference-"@),
        text::starts_with(
            sanitized(target),
            spec_k8s_name(target).subrange(19, spec_k8s_name(target).len() as int),
        ),
        spec_k8s_name(target).len() <= 63,
        forall|i: int|
            0 <= i < spec_k8s_name(target).len() ==> is_name_char(#[trigger] spec_k8s_name(target)[i])
                || spec_k8s_name(target)[i] == '-',
{
    reveal_strlit("edgeflow-inference-");
    let prefix = "edgeflow-inference-"@;
    assert(prefix.len() == 19);
    let san = sanitized(target);
    let x = san.subrange(0, name_cut(target));
    let name = spec_k8s_name(target);
    assert(name == prefix + x);
    assert(name.subrange(0, 19) =~= prefix);
    assert(name.subrange(19, name.len() as int) =~= x);
    assert(san.subrange(0, x.len() as int) =~= x);
    assert forall|i: int| 0 <= i < name.len() implies is_name_char(#[trigger] name[i]) || name[i] == '-' by {
        if i >= 19 {
            assert(name[i] == san[i - 19]);
        } else {
            assert(name[i] == prefix[i]);
        }
    }
}

// ---------------------------------------------------------------------------
// Settings: environment overrides and defaults
// ---------------------------------------------------------------------------

/// The values of the environment variables that override unset settings
/// (`None` for an unset variable).
pub struct SettingsEnv {
    /// `EDGEFLOW_SESSIONS`
    pub sessions: Option<String>,
    /// `EDGEFLOW_MAX_CONCURRENT_INFER`
    pub max_concurrent: Option<String>,
    /// `EDGEFLOW_INFERENCE_CPU_REQUEST`
    pub cpu_request: Option<String>,
    /// `EDGEFLOW_INFERENCE_MEMORY_REQUEST`
    pub memory_request: Option<String>,
    /// `EDGEFLOW_INFERENCE_MEMORY_LIMIT`
    pub memory_limit: Option<String>,
}

/// The `i64` value of a variable, when it is set and parses.
pub open spec fn env_i64(var: Option<String>) -> Option<int> {
    match var {
        Some(s) => text::parse_i64(s@),
        None => None,
    }
}

/// Effective sessions: the setting, else the environment, else 1.
pub open spec fn resolved_sessions(res: ResourceSettings, env: SettingsEnv) -> int {
    match res.sessions {
        Some(v) => v as int,
        None => match env_i64(env.sessions) {
            Some(v) => v,
            None => 1,
        },
    }
}

/// Effective max concurrency: the setting, else the environment, else the
/// effective sessions.
pub open spec fn resolved_max_concurrent(res: ResourceSettings, env: SettingsEnv) -> int {
    match res.max_concurrent {
        Some(v) => v as int,
        None => match env_i64(env.max_concurrent) {
            Some(v) => v,
            None => resolved_sessions(res, env),
        },
    }
}

/// A string setting: the user's value, else the environment's, else `default`.
pub open spec fn resolved_str(user: Option<String>, var: Option<String>, default: Seq<char>) -> Seq<char> {
    match user {
        Some(u) => u@,
        None => config::spec_or(var, default),
    }
}

/// Whether two optional node selectors hold the same labels.
pub open spec fn same_selector(a: Option<BTreeMap<String, String>>, b: Option<BTreeMap<String, String>>) -> bool {
    match (a, b) {
        (Some(x), Some(y)) => x@ == y@,
        (None, None) => true,
        _ => false,
    }
}

fn env_i64_exec(var: &Option<String>) -> (r: Option<i64>)
    ensures
        match r {
            Some(v) => env_i64(*var) == Some(v as int),
            None => env_i64(*var) is None,
        },
{
    match var {
        Some(s) => {
            let c = text::chars_of(s.as_str());
            text::parse_i64_exec(c.as_slice())
        },
        None => None,
    }
}

fn clone_selector(s: &Option<BTreeMap<String, String>>) -> (r: Option<BTreeMap<String, String>>)
    ensures
        same_selector(r, *s),
{
    match s {
        Some(m) => Some(m.clone()),
        None => None,
    }
}

/// Resolve effective edgeflow resource settings by applying environment
/// overrides and hardcoded defaults. Returns a fully-populated
/// `ResourceSettings`.
pub fn resolve_resources(resources: &ResourceSettings, env: &SettingsEnv) -> (r: ResourceSettings)
    ensures
        r.sessions matches Some(v) && v == resolved_sessions(*resources, *env),
        r.max_concurrent matches Some(v) && v == resolved_max_concurrent(*resources, *env),
        // The user's setting wins; else a parsable environment value; else
        // 1 for sessions and the resolved sessions for max concurrency.
        resources.sessions is Some ==> r.sessions == resources.sessions,
        resources.sessions is None ==> match env.sessions {
            Some(s) => match text::parse_i64(s@) {
                Some(v) => r.sessions matches Some(x) && x == v,
                None => r.sessions == Some(1i64),
            },
            None => r.sessions == Some(1i64),
        },
        resources.max_concurrent is Some ==> r.max_concurrent == resources.max_concurrent,
        resources.max_concurrent is None ==> match env.max_concurrent {
            Some(s) => match text::parse_i64(s@) {
                Some(v) => r.max_concurrent matches Some(x) && x == v,
                None => r.max_concurrent == r.sessions,
            },
            None => r.max_concurrent == r.sessions,
        },
{
    let sessions: i64 = match resources.sessions {
        Some(v) => v,
        None => match env_i64_exec(&env.sessions) {
            Some(v) => v,
            None => 1,
        },
    };
    let max_concurrent: i64 = match resources.max_concurrent {
        Some(v) => v,
        None => match env_i64_exec(&env.max_concurrent) {
            Some(v) => v,
            None => sessions,
        },
    };
    ResourceSettings { sessions: Some(sessions), max_concurrent: Some(max_concurrent) }
}

fn resolve_str(user: &Option<String>, var: &Option<String>, default: &str) -> (r: String)
    ensures
        r@ == resolved_str(*user, *var, default@),
{
    match user {
        Some(u) => u.clone(),
        None => match var {
            Some(v) => v.clone(),
            None => text::owned(default),
        },
    }
}

/// Resolve effective k8s infrastructure settings by applying environment
/// overrides and hardcoded defaults for cpu/memory (`100m`, `256Mi`,
/// `512Mi`). Replicas, placement and node selector are left as they are
/// (`None` means "not set by the user").
pub fn resolve_infra(infra: &InfraSettings, env: &SettingsEnv) -> (r: InfraSettings)
    ensures
        config::opt_view(r.cpu_request) == Some(
            resolved_str(infra.cpu_request, env.cpu_request, "100m"@),
        ),
        config::opt_view(r.memory_request) == Some(
            resolved_str(infra.memory_request, env.memory_request, "256Mi"@),
        ),
        config::opt_view(r.memory_limit) == Some(
            resolved_str(infra.memory_limit, env.memory_limit, "512Mi"@),
        ),
        r.replicas == infra.replicas,
        r.placement == infra.placement,
        same_selector(r.node_selector, infra.node_selector),
        // A setting the user gives is kept whatever the environment holds.
        infra.cpu_request matches Some(u) ==> (r.cpu_request matches Some(c) && c@ == u@),
        infra.memory_request matches Some(u) ==> (r.memory_request matches Some(c) && c@ == u@),
        infra.memory_limit matches Some(u) ==> (r.memory_limit matches Some(c) && c@ == u@),
        // Unset by the user: the environment's value, else the default.
        (infra.cpu_request is None && env.cpu_request is Some) ==> (r.cpu_request matches Some(c)
            && c@ == env.cpu_request->0@),
        (infra.memory_request is None && env.memory_request is Some) ==> (
        r.memory_request matches Some(c) && c@ == env.memory_request->0@),
        (infra.memory_limit is None && env.memory_limit is Some) ==> (r.memory_limit matches Some(c)
            && c@ == env.memory_limit->0@),
        (infra.cpu_request is None && env.cpu_request is None) ==> (r.cpu_request matches Some(c)
            && c@ == "100m"@),
        (infra.memory_request is None && env.memory_request is None) ==> (
        r.memory_request matches Some(c) && c@ == "256Mi"@),
        (infra.memory_limit is None && env.memory_limit is None) ==> (r.memory_limit matches Some(
            c,
        ) && c@ == "512Mi"@),
{
    InfraSettings {
        cpu_request: Some(resolve_str(&infra.cpu_request, &env.cpu_request, "100m")),
        memory_request: Some(resolve_str(&infra.memory_request, &env.memory_request, "256Mi")),
        memory_limit: Some(resolve_str(&infra.memory_limit, &env.memory_limit, "512Mi")),
        replicas: infra.replicas,
        placement: infra.placement,
        node_selector: clone_selector(&infra.node_selector),
    }
}

// ---------------------------------------------------------------------------
// Pods
// ---------------------------------------------------------------------------

/// What the pod cache reads of a k8s pod.
pub struct PodSnapshot {
    /// `metadata.name`
    pub name: Option<String>,
    /// The value of the `edgeflow-target` label.
    pub target_label: Option<String>,
    /// `status.phase` (`None` when the status or the phase is absent).
    pub phase: Option<String>,
    /// `status.conditions`, each as `(type, status)`.
    pub conditions: Option<Vec<(String, String)>>,
    /// `status.podIP`
    pub pod_ip: Option<String>,
    /// `spec.nodeName`
    pub node_name: Option<String>,
    /// `metadata.creationTimestamp`, in milliseconds since the epoch.
    pub created_at_ms: Option<i64>,
}

/// Whether the first `Ready` condition of the list says `True`.
pub open spec fn ready_in(cs: Seq<(String, String)>) -> bool
    decreases cs.len(),
{
    if cs.len() == 0 {
        false
    } else if cs[0].0@ == "Ready"@ {
        cs[0].1@ == "True"@
    } else {
        ready_in(cs.drop_first())
    }
}

/// Whether the pod's first `Ready` condition says `True`; `false` without one.
pub open spec fn pod_ready(p: PodSnapshot) -> bool {
    match p.conditions {
        Some(cs) => ready_in(cs@),
        None => false,
    }
}

/// Pod health from its status: `Running` and ready is `Healthy`; `Running`
/// and not ready is `Stale`; any other phase (a missing one included) is
/// `Unhealthy`.
pub open spec fn spec_health(p: PodSnapshot) -> TargetHealth {
    let phase = config::spec_or(p.phase, "Unknown"@);
    if phase == "Running"@ {
        if pod_ready(p) {
            TargetHealth::Healthy
        } else {
            TargetHealth::Stale
        }
    } else {
        TargetHealth::Unhealthy
    }
}

/// The pod as a `TargetPod`; `None` for a pod without a name.
pub open spec fn spec_target_pod(p: PodSnapshot) -> Option<TargetPodView> {
    match p.name {
        None => None,
        Some(n) => Some(
            TargetPodView {
                pod_id: n@,
                address: match p.pod_ip {
                    Some(ip) => "http://"@ + ip@ + ":8080"@,
                    None => Seq::<char>::empty(),
                },
                node: config::opt_view(p.node_name),
                registered_at: match p.created_at_ms {
                    Some(t) => t,
                    None => 0,
                },
                health: spec_health(p),
            },
        ),
    }
}

fn ready_exec(cs: &Vec<(String, String)>) -> (r: bool)
    ensures
        r == ready_in(cs@),
{
    let mut i: usize = 0;
    assert(cs@.subrange(0, cs@.len() as int) =~= cs@);
    while i < cs.len()
        invariant
            0 <= i <= cs@.len(),
            ready_in(cs@) == ready_in(cs@.subrange(i as int, cs@.len() as int)),
        decreases cs@.len() - i,
    {
        let ghost rest = cs@.subrange(i as int, cs@.len() as int);
        assert(rest[0] == cs@[i as int]);
        assert(rest.drop_first() =~= cs@.subrange(i + 1, cs@.len() as int));
        let c = text::chars_of(cs[i].0.as_str());
        if text::chars_eq_str(c.as_slice(), "Ready") {
            let st = text::chars_of(cs[i].1.as_str());
            return text::chars_eq_str(st.as_slice(), "True");
        }
        i = i + 1;
    }
    false
}

/// Derive pod health from k8s pod status.
/// `Running + Ready=True` -> Healthy; `Running + Ready=False` -> Stale; otherwise -> Unhealthy.
pub fn health_from_pod(pod: &PodSnapshot) -> (r: TargetHealth)
    ensures
        r == spec_health(*pod),
{
    let phase: Vec<char> = match &pod.phase {
        Some(p) => text::chars_of(p.as_str()),
        None => text::chars_of("Unknown"),
    };
    let ready = match &pod.conditions {
        Some(cs) => ready_exec(cs),
        None => false,
    };
    if text::chars_eq_str(phase.as_slice(), "Running") {
        if ready {
            TargetHealth::Healthy
        } else {
            TargetHealth::Stale
        }
    } else {
        TargetHealth::Unhealthy
    }
}

fn clone_opt(o: &Option<String>) -> (r: Option<String>)
    ensures
        config::opt_view(r) == config::opt_view(*o),
{
    match o {
        Some(s) => Some(s.clone()),
        None => None,
    }
}

/// Convert a pod into our `TargetPod`. Returns `None` if the pod has no name.
///
/// `pod_ip` may be absent while a pod is starting; the address is left empty
/// in that case so the pod isn't silently pruned from the store.
pub fn pod_to_target_pod(pod: &PodSnapshot) -> (r: Option<TargetPod>)
    ensures
        match r {
            Some(tp) => spec_target_pod(*pod) == Some(tp@),
            None => spec_target_pod(*pod) is None,
        },
{
    let pod_id = match &pod.name {
        Some(n) => n.clone(),
        None => return None,
    };
    let address = match &pod.pod_ip {
        Some(ip) => {
            let mut v: Vec<char> = Vec::new();
            text::push_str(&mut v, "http://");
            text::push_str(&mut v, ip.as_str());
            text::push_str(&mut v, ":8080");
            text::string_from_chars(v.as_slice())
        },
        None => String::new(),
    };
    let registered_at: i64 = match pod.created_at_ms {
        Some(t) => t,
        None => 0,
    };
    let health = health_from_pod(pod);
    let tp = TargetPod {
        pod_id,
        address,
        node: clone_opt(&pod.node_name),
        registered_at,
        health,
    };
    assert(spec_target_pod(*pod) == Some(tp@));
    Some(tp)
}

/// The target a pod serves: the value of its `edgeflow-target` label.
pub fn target_label(pod: &PodSnapshot) -> (r: Option<&String>)
    ensures
        match r {
            Some(t) => pod.target_label == Some(*t),
            None => pod.target_label is None,
        },
{
    match &pod.target_label {
        Some(t) => Some(t),
        None => None,
    }
}

/// The pods of `target`, converted, in the order they are listed.
pub open spec fn pods_for(pods: Seq<PodSnapshot>, target: Seq<char>) -> Seq<TargetPodView>
    decreases pods.len(),
{
    if pods.len() == 0 {
        Seq::<TargetPodView>::empty()
    } else {
        let prev = pods_for(pods.drop_last(), target);
        let p = pods.last();
        if config::opt_view(p.target_label) == Some(target) && spec_target_pod(p) is Some {
            prev.push(spec_target_pod(p)->0)
        } else {
            prev
        }
    }
}

/// What the pod watcher reports, as far as the cache's readiness goes: the
/// events of the initial listing, the changes after it, and errors.
#[derive(Debug, Clone, Copy, PartialEq, Eq, Structural)]
pub enum WatchEvent {
    /// The initial listing starts.
    Init,
    /// A pod of the initial listing.
    InitApply,
    /// The initial listing is complete.
    InitDone,
    /// A pod was added or changed.
    Apply,
    /// A pod was deleted.
    Delete,
    /// The watcher failed; it retries with backoff.
    Error,
}

/// Readiness after an event: set once the initial listing is complete,
/// and never cleared: later events, errors included, leave the last-known
/// state in place.
pub open spec fn spec_next_ready(ready: bool, event: WatchEvent) -> bool {
    ready || event == WatchEvent::InitDone
}

/// The cache's readiness after a watcher event.
pub fn next_ready(ready: bool, event: WatchEvent) -> (r: bool)
    ensures
        r == spec_next_ready(ready, event),
{
    ready || event == WatchEvent::InitDone
}

/// Readiness after a sequence of watcher events.
pub open spec fn ready_after(ready: bool, events: Seq<WatchEvent>) -> bool
    decreases events.len(),
{
    if events.len() == 0 {
        ready
    } else {
        spec_next_ready(ready_after(ready, events.drop_last()), events.last())
    }
}

/// The cache is ready exactly when it started ready or the initial listing
/// has completed at some point.
pub proof fn lemma_ready_after(ready: bool, events: Seq<WatchEvent>)
    ensures
        ready_after(ready, events) <==> (ready || events.contains(WatchEvent::InitDone)),
    decreases events.len(),
{
    if events.len() > 0 {
        let pre = events.drop_last();
        lemma_ready_after(ready, pre);
        if pre.contains(WatchEvent::InitDone) {
            let i = choose|i: int| 0 <= i < pre.len() && pre[i] == WatchEvent::InitDone;
            assert(events[i] == WatchEvent::InitDone);
        }
        if events.contains(WatchEvent::InitDone) {
            let i = choose|i: int| 0 <= i < events.len() && events[i] == WatchEvent::InitDone;
            if i < pre.len() {
                assert(pre[i] == WatchEvent::InitDone);
            }
        }
    }
}

/// Once the initial listing has arrived, the cache stays ready whatever
/// the watcher reports next, so its reads ([`for_target`], [`all_grouped`])
/// never go back to `None`.
pub proof fn lemma_ready_stays(ready: bool, before: Seq<WatchEvent>, after: Seq<WatchEvent>)
    requires
        ready_after(ready, before),
    ensures
        ready_after(ready, before + after),
{
    lemma_ready_after(ready, before);
    lemma_ready_after(ready, before + after);
    if !ready {
        let i = choose|i: int| 0 <= i < before.len() && before[i] == WatchEvent::InitDone;
        assert((before + after)[i] == WatchEvent::InitDone);
    }
}

/// Pods for a single target. `None` until the initial sync completes
/// (`ready` is false).
pub fn for_target(ready: bool, pods: &Vec<PodSnapshot>, target: &str) -> (r: Option<Vec<TargetPod>>)
    ensures
        !ready ==> r is None,
        ready ==> (r matches Some(v) && pod_views(v@) == pods_for(pods@, target@)),
{
    if !ready {
        return None;
    }
    let tc = text::chars_of(target);
    let mut out: Vec<TargetPod> = Vec::new();
    let mut i: usize = 0;
    while i < pods.len()
        invariant
            tc@ == target@,
            0 <= i <= pods@.len(),
            pod_views(out@) == pods_for(pods@.subrange(0, i as int), target@),
        decreases pods@.len() - i,
    {
        let p = &pods[i];
        assert(pods@.subrange(0, i + 1).drop_last() =~= pods@.subrange(0, i as int));
        let ghost prev = pod_views(out@);
        let matches = match &p.target_label {
            Some(t) => {
                let c = text::chars_of(t.as_str());
                text::chars_eq(c.as_slice(), tc.as_slice())
            },
            None => false,
        };
        if matches {
            match pod_to_target_pod(p) {
                Some(tp) => {
                    out.push(tp);
                    assert(pod_views(out@) =~= prev.push(tp@));
                },
                None => {},
            }
        }
        i = i + 1;
    }
    assert(pods@.subrange(0, pods@.len() as int) =~= pods@);
    Some(out)
}

/// Whether `key` names one of the groups.
pub open spec fn has_key(g: Seq<(Seq<char>, Seq<TargetPodView>)>, key: Seq<char>) -> bool {
    exists|i: int| 0 <= i < g.len() && g[i].0 == key
}

/// The position of the group named `key`.
pub open spec fn key_index(g: Seq<(Seq<char>, Seq<TargetPodView>)>, key: Seq<char>) -> int {
    choose|i: int| 0 <= i < g.len() && g[i].0 == key
}

/// `g` with `tp` appended to the group `key`, which is created (last) when
/// it does not exist yet.
pub open spec fn add_to_group(
    g: Seq<(Seq<char>, Seq<TargetPodView>)>,
    key: Seq<char>,
    tp: TargetPodView,
) -> Seq<(Seq<char>, Seq<TargetPodView>)> {
    if has_key(g, key) {
        let i = key_index(g, key);
        g.update(i, (key, g[i].1.push(tp)))
    } else {
        g.push((key, seq![tp]))
    }
}

/// The pods grouped by target: one group per target, in the order the
/// targets first appear, each holding that target's converted pods in the
/// order they are listed. Pods without the label or without a name are left
/// out.
pub open spec fn group_pods(pods: Seq<PodSnapshot>) -> Seq<(Seq<char>, Seq<TargetPodView>)>
    decreases pods.len(),
{
    if pods.len() == 0 {
        Seq::<(Seq<char>, Seq<TargetPodView>)>::empty()
    } else {
        let g = group_pods(pods.drop_last());
        let p = pods.last();
        match (config::opt_view(p.target_label), spec_target_pod(p)) {
            (Some(t), Some(tp)) => add_to_group(g, t, tp),
            _ => g,
        }
    }
}

/// The views of a list of groups.
pub open spec fn group_views(g: Seq<(String, Vec<TargetPod>)>) -> Seq<(Seq<char>, Seq<TargetPodView>)> {
    g.map_values(|e: (String, Vec<TargetPod>)| (e.0@, pod_views(e.1@)))
}

/// Group names are distinct.
pub open spec fn distinct_keys(g: Seq<(Seq<char>, Seq<TargetPodView>)>) -> bool {
    forall|i: int, j: int| 0 <= i < g.len() && 0 <= j < g.len() && i != j ==> g[i].0 != g[j].0
}

proof fn lemma_group_pods_distinct(pods: Seq<PodSnapshot>)
    ensures
        distinct_keys(group_pods(pods)),
    decreases pods.len(),
{
    if pods.len() > 0 {
        lemma_group_pods_distinct(pods.drop_last());
        let g = group_pods(pods.drop_last());
        let p = pods.last();
        match (config::opt_view(p.target_label), spec_target_pod(p)) {
            (Some(t), Some(tp)) => {
                if has_key(g, t) {
                    let k = key_index(g, t);
                    let g2 = add_to_group(g, t, tp);
                    assert forall|i: int, j: int|
                        0 <= i < g2.len() && 0 <= j < g2.len() && i != j implies g2[i].0
                        != g2[j].0 by {
                        assert(g2[i].0 == g[i].0);
                        assert(g2[j].0 == g[j].0);
                    }
                }
            },
            _ => {},
        }
    }
}

/// Pods grouped by target. `None` until the initial sync completes
/// (`ready` is false).
pub fn all_grouped(ready: bool, pods: &Vec<PodSnapshot>) -> (r: Option<Vec<(String, Vec<TargetPod>)>>)
    ensures
        !ready ==> r is None,
        ready ==> (r matches Some(g) && group_views(g@) == group_pods(pods@)),
{
    if !ready {
        return None;
    }
    let mut groups: Vec<(String, Vec<TargetPod>)> = Vec::new();
    let mut i: usize = 0;
    while i < pods.len()
        invariant
            0 <= i <= pods@.len(),
            group_views(groups@) == group_pods(pods@.subrange(0, i as int)),
        decreases pods@.len() - i,
    {
        let p = &pods[i];
        assert(pods@.subrange(0, i + 1).drop_last() =~= pods@.subrange(0, i as int));
        proof {
            lemma_group_pods_distinct(pods@.subrange(0, i as int));
        }
        let ghost g = group_views(groups@);
        match &p.target_label {
            Some(name) => {
                match pod_to_target_pod(p) {
                    Some(tp) => {
                        let nc = text::chars_of(name.as_str());
                        let mut j: usize = 0;
                        let mut found = false;
                        while j < groups.len() && !found
                            invariant
                                nc@ == name@,
                                g == group_views(groups@),
                                0 <= j <= groups@.len(),
                                found ==> j < groups@.len() && g[j as int].0 == name@,
                                !found ==> forall|k: int| 0 <= k < j ==> g[k].0 != name@,
                            decreases groups@.len() - j + (if found { 0int } else { 1int }),
                        {
                            let kc = text::chars_of(groups[j].0.as_str());
                            if text::chars_eq(kc.as_slice(), nc.as_slice()) {
                                found = true;
                            } else {
                                j = j + 1;
                            }
                        }
                        if found {
                            assert(g[j as int].0 == name@);
                            assert(has_key(g, name@));
                            assert(key_index(g, name@) == j);
                            let ghost old_groups = groups@;
                            let (k, mut members) = groups.remove(j);
                            assert((k, members) == old_groups[j as int]);
                            let ghost old_members = members@;
                            members.push(tp);
                            assert(pod_views(members@) =~= pod_views(old_members).push(tp@));
                            groups.insert(j, (k, members));
                            assert(groups@ =~= old_groups.update(j as int, (k, members)));
                            assert(k@ == name@);
                            assert(group_views(groups@) =~= add_to_group(g, name@, tp@));
                        } else {
                            assert(!has_key(g, name@));
                            let key = name.clone();
                            let mut members: Vec<TargetPod> = Vec::new();
                            members.push(tp);
                            groups.push((key, members));
                            assert(pod_views(members@) =~= seq![tp@]);
                            assert(group_views(groups@) =~= add_to_group(g, name@, tp@));
                        }
                    },
                    None => {},
                }
            },
            None => {},
        }
        i = i + 1;
    }
    assert(pods@.subrange(0, pods@.len() as int) =~= pods@);
    Some(groups)
}

/// The pods grouped by target agree with the pods listed per target: group
/// names are distinct, every group holds exactly the pods that the per-target
/// listing gives for its name, and every target with at least one pod has a
/// group.
pub proof fn lemma_grouped_agrees_with_for_target(pods: Seq<PodSnapshot>, target: Seq<char>)
    ensures
        distinct_keys(group_pods(pods)),
        forall|i: int|
            0 <= i < group_pods(pods).len() ==> (#[trigger] group_pods(pods)[i]).1 == pods_for(
                pods,
                group_pods(pods)[i].0,
            ),
        pods_for(pods, target).len() > 0 ==> has_key(group_pods(pods), target),
        !has_key(group_pods(pods), target) ==> pods_for(pods, target).len() == 0,
    decreases pods.len(),
{
    lemma_group_pods_distinct(pods);
    if pods.len() > 0 {
        let pre = pods.drop_last();
        lemma_grouped_agrees_with_for_target(pre, target);
        lemma_group_pods_distinct(pre);
        let g = group_pods(pre);
        let p = pods.last();
        let g2 = group_pods(pods);
        assert forall|i: int| 0 <= i < g2.len() implies (#[trigger] g2[i]).1 == pods_for(
            pods,
            g2[i].0,
        ) by {
            lemma_grouped_agrees_with_for_target(pre, g2[i].0);
            match (config::opt_view(p.target_label), spec_target_pod(p)) {
                (Some(t), Some(tp)) => {
                    if has_key(g, t) {
                        let k = key_index(g, t);
                        if i != k {
                            assert(g2[i] == g[i]);
                            assert(g[i].0 != t);
                        }
                    } else {
                        if i < g.len() {
                            assert(g2[i] == g[i]);
                            assert(g[i].0 != t);
                        } else {
                            assert(i == g.len());
                            assert(pods_for(pre, t).len() == 0);
                        }
                    }
                },
                _ => {
                    assert(g2 == g);
                },
            }
        }
        match (config::opt_view(p.target_label), spec_target_pod(p)) {
            (Some(t), Some(tp)) => {
                if t == target {
                    if has_key(g, t) {
                        let k = key_index(g, t);
                        assert(g2[k].0 == t);
                    } else {
                        assert(g2[g.len() as int].0 == t);
                    }
                } else {
                    if has_key(g, target) {
                        let k = key_index(g, target);
                        assert(g2[k].0 == target);
                    }
                }
            },
            _ => {},
        }
        if has_key(g2, target) == false {
            if has_key(g, target) {
                let k = key_index(g, target);
                assert(g2[k].0 == target);
            }
        }
    }
}

// ---------------------------------------------------------------------------
// The inference Deployment manifest
// ---------------------------------------------------------------------------

/// Where an environment variable of the inference container takes its
/// value from.
pub enum EnvSource {
    /// A literal value (`None`: the variable is declared without a value).
    Value(Option<String>),
    /// A field of the pod (`valueFrom.fieldRef.fieldPath`).
    Field(String),
}

/// An environment variable of the inference container.
pub struct EnvVarSpec {
    pub name: String,
    pub source: EnvSource,
}

/// The mathematical value of an [`EnvSource`].
pub enum EnvSourceView {
    Value(Option<Seq<char>>),
    Field(Seq<char>),
}

impl View for EnvVarSpec {
    type V = (Seq<char>, EnvSourceView);

    open spec fn view(&self) -> (Seq<char>, EnvSourceView) {
        (
            self.name@,
            match self.source {
                EnvSource::Value(v) => EnvSourceView::Value(config::opt_view(v)),
                EnvSource::Field(f) => EnvSourceView::Field(f@),
            },
        )
    }
}

/// The views of a list of environment variables.
pub open spec fn env_views(v: Seq<EnvVarSpec>) -> Seq<(Seq<char>, EnvSourceView)> {
    v.map_values(|e: EnvVarSpec| e@)
}

/// The views of a list of string pairs.
pub open spec fn pair_views(v: Seq<(String, String)>) -> Seq<(Seq<char>, Seq<char>)> {
    v.map_values(|e: (String, String)| (e.0@, e.1@))
}

/// The k8s Deployment that runs the inference pod of a target: one replica
/// set of pods, each with a single `edgeflow-inference` container.
pub struct InferenceDeploymentSpec {
    /// `metadata.name`, also the `app` label.
    pub name: String,
    pub namespace: String,
    /// Labels of the Deployment, of its selector and of its pods.
    pub labels: Vec<(String, String)>,
    pub replicas: i32,
    /// Pins the pod to a node (`spec.nodeName`).
    pub node_name: Option<String>,
    pub node_selector: Option<BTreeMap<String, String>>,
    /// Affinity rule of the pods (see `Placement`).
    pub placement: Option<Placement>,
    pub container_name: String,
    pub image: String,
    pub image_pull_policy: String,
    pub container_port: i32,
    pub env: Vec<EnvVarSpec>,
    pub cpu_request: String,
    pub memory_request: String,
    /// No CPU limit: throttling degrades inference latency more than an OOM would.
    pub memory_limit: String,
    /// Readiness probe: HTTP GET of this path on `container_port`.
    pub readiness_path: String,
    pub readiness_initial_delay_seconds: i32,
    pub readiness_period_seconds: i32,
    pub readiness_failure_threshold: i32,
}

/// The values of the environment variables that shape the inference
/// Deployment (`None` for an unset variable).
pub struct DeployEnv {
    /// `EDGEFLOW_INFERENCE_IMAGE`
    pub image: Option<String>,
    /// `EDGEFLOW_SERVER_URL`
    pub server_url: Option<String>,
    /// `EDGEFLOW_NAMESPACE`
    pub namespace: Option<String>,
    /// `EDGEFLOW_IMAGE_PULL_POLICY`
    pub image_pull_policy: Option<String>,
    /// `EDGEFLOW_MQTT_URL`
    pub mqtt_url: Option<String>,
    /// `EDGEFLOW_MQTT_PORT`
    pub mqtt_port: Option<String>,
    /// `LOG_FORMAT`
    pub log_format: Option<String>,
    /// `OTEL_EXPORTER_OTLP_ENDPOINT`
    pub otel_endpoint: Option<String>,
    /// The overrides of unset settings.
    pub settings: SettingsEnv,
}

/// The namespace: `EDGEFLOW_NAMESPACE`, or `default`.
pub open spec fn spec_namespace(env: DeployEnv) -> Seq<char> {
    config::spec_or(env.namespace, "default"@)
}

/// The MQTT URL handed to pods: an external broker URL when configured,
/// else the embedded broker of the server pod on the configured port
/// (1883 when the port is unset or does not parse as a `u16`).
pub open spec fn spec_mqtt_url(env: DeployEnv) -> Seq<char> {
    match env.mqtt_url {
        Some(u) => u@,
        None => "mqtt://edgeflow-server:"@ + text::decimal(config::spec_mqtt_port(env.mqtt_port)),
    }
}

/// The environment of the inference container, in order.
pub open spec fn spec_pod_env(
    target: Seq<char>,
    env: DeployEnv,
    sessions: int,
    max_concurrent: int,
) -> Seq<(Seq<char>, EnvSourceView)> {
    seq![
        ("EDGEFLOW_SERVER"@, EnvSourceView::Value(Some(config::spec_or(env.server_url, "http://edgeflow-server:5000"@)))),
        ("EDGEFLOW_TARGET"@, EnvSourceView::Value(Some(target))),
        ("EDGEFLOW_INFER_ADDR"@, EnvSourceView::Value(Some("0.0.0.0:8080"@))),
        ("EDGEFLOW_SESSIONS"@, EnvSourceView::Value(Some(text::decimal(sessions)))),
        ("EDGEFLOW_MAX_CONCURRENT_INFER"@, EnvSourceView::Value(Some(text::decimal(max_concurrent)))),
        ("EDGEFLOW_POD_NAME"@, EnvSourceView::Field("metadata.name"@)),
        ("EDGEFLOW_POD_IP"@, EnvSourceView::Field("status.podIP"@)),
        ("EDGEFLOW_NODE_NAME"@, EnvSourceView::Field("spec.nodeName"@)),
        ("LOG_FORMAT"@, EnvSourceView::Value(Some(config::spec_or(env.log_format, "json"@)))),
        ("EDGEFLOW_MQTT_URL"@, EnvSourceView::Value(Some(spec_mqtt_url(env)))),
        ("OTEL_EXPORTER_OTLP_ENDPOINT"@, EnvSourceView::Value(config::opt_view(env.otel_endpoint))),
    ]
}

fn value_var(name: &str, value: Option<String>) -> (r: EnvVarSpec)
    ensures
        r@ == (name@, EnvSourceView::Value(config::opt_view(value))),
{
    EnvVarSpec { name: text::owned(name), source: EnvSource::Value(value) }
}

fn field_var(name: &str, path: &str) -> (r: EnvVarSpec)
    ensures
        r@ == (name@, EnvSourceView::Field(path@)),
{
    EnvVarSpec { name: text::owned(name), source: EnvSource::Field(text::owned(path)) }
}

fn or_default(var: &Option<String>, default: &str) -> (r: String)
    ensures
        r@ == config::spec_or(*var, default@),
{
    match var {
        Some(s) => s.clone(),
        None => text::owned(default),
    }
}

fn mqtt_url(env: &DeployEnv) -> (r: String)
    ensures
        r@ == spec_mqtt_url(*env),
{
    match &env.mqtt_url {
        Some(u) => u.clone(),
        None => {
            let port: u16 = match &env.mqtt_port {
                Some(s) => {
                    let c = text::chars_of(s.as_str());
                    match text::parse_u16(c.as_slice()) {
                        Some(v) => v,
                        None => 1883,
                    }
                },
                None => 1883,
            };
            let mut v: Vec<char> = Vec::new();
            text::push_str(&mut v, "mqtt://edgeflow-server:");
            let d = text::i64_to_decimal(port as i64);
            text::push_all(&mut v, d.as_slice());
            text::string_from_chars(v.as_slice())
        },
    }
}

fn decimal_string(n: i64) -> (r: String)
    ensures
        r@ == text::decimal(n as int),
{
    let d = text::i64_to_decimal(n);
    text::string_from_chars(d.as_slice())
}

/// Whether `d` is the manifest of the k8s Deployment for an inference pod
/// serving `target`, pinned to `node` when given, with the given settings
/// resolved against the environment.
pub open spec fn is_inference_deployment(
    d: InferenceDeploymentSpec,
    target: Seq<char>,
    node: Option<Seq<char>>,
    resources: ResourceSettings,
    infra: InfraSettings,
    env: DeployEnv,
) -> bool {
    &&& d.name@ == spec_k8s_name(target)
    &&& d.namespace@ == spec_namespace(env)
    &&& pair_views(d.labels@) == seq![("app"@, spec_k8s_name(target)), ("edgeflow-target"@, target)]
    &&& d.replicas == (match infra.replicas { Some(n) => n, None => 1 })
    &&& config::opt_view(d.node_name) == node
    &&& same_selector(d.node_selector, infra.node_selector)
    &&& d.placement == infra.placement
    &&& d.container_name@ == "edgeflow-inference"@
    &&& d.image@ == config::spec_or(env.image, "edgeflow-inference:latest"@)
    &&& d.image_pull_policy@ == config::spec_or(env.image_pull_policy, "IfNotPresent"@)
    &&& d.container_port == 8080
    &&& env_views(d.env@) == spec_pod_env(
        target,
        env,
        resolved_sessions(resources, env.settings),
        resolved_max_concurrent(resources, env.settings),
    )
    &&& d.cpu_request@ == resolved_str(infra.cpu_request, env.settings.cpu_request, "100m"@)
    &&& d.memory_request@ == resolved_str(infra.memory_request, env.settings.memory_request, "256Mi"@)
    &&& d.memory_limit@ == resolved_str(infra.memory_limit, env.settings.memory_limit, "512Mi"@)
    &&& d.readiness_path@ == "/health"@
    &&& d.readiness_initial_delay_seconds == 0
    &&& d.readiness_period_seconds == 1
    &&& d.readiness_failure_threshold == 300
}

/// The manifest of the k8s Deployment for an inference pod serving `target`.
///
/// `node` pins the pod to a specific node by name (k3s/k3d node names
/// like `k3d-cluster-agent-0`); `None` lets the scheduler decide. Unset
/// settings take the environment's overrides, then the defaults.
pub fn inference_deployment_spec(
    target: &str,
    node: Option<&str>,
    resources: &ResourceSettings,
    infra: &InfraSettings,
    env: &DeployEnv,
) -> (r: InferenceDeploymentSpec)
    ensures
        is_inference_deployment(
            r,
            target@,
            match node { Some(n) => Some(n@), None => None },
            *resources,
            *infra,
            *env,
        ),
{
    let name = k8s_name(target);
    let resolved_infra = resolve_infra(infra, &env.settings);
    let resolved_res = resolve_resources(resources, &env.settings);
    let cpu_request = match resolved_infra.cpu_request {
        Some(v) => v,
        None => text::owned("100m"),
    };
    let memory_request = match resolved_infra.memory_request {
        Some(v) => v,
        None => text::owned("256Mi"),
    };
    let memory_limit = match resolved_infra.memory_limit {
        Some(v) => v,
        None => text::owned("512Mi"),
    };
    let sessions: i64 = match resolved_res.sessions {
        Some(v) => v,
        None => 1,
    };
    let max_concurrent: i64 = match resolved_res.max_concurrent {
        Some(v) => v,
        None => sessions,
    };
    let mut labels: Vec<(String, String)> = Vec::new();
    labels.push((text::owned("app"), name.clone()));
    labels.push((text::owned(TARGET_LABEL), text::owned(target)));
    assert(pair_views(labels@) =~= seq![("app"@, spec_k8s_name(target@)), ("edgeflow-target"@, target@)]);
    let mut vars: Vec<EnvVarSpec> = Vec::new();
    vars.push(value_var("EDGEFLOW_SERVER", Some(or_default(&env.server_url, "http://edgeflow-server:5000"))));
    vars.push(value_var("EDGEFLOW_TARGET", Some(text::owned(target))));
    vars.push(value_var("EDGEFLOW_INFER_ADDR", Some(text::owned("0.0.0.0:8080"))));
    vars.push(value_var("EDGEFLOW_SESSIONS", Some(decimal_string(sessions))));
    vars.push(value_var("EDGEFLOW_MAX_CONCURRENT_INFER", Some(decimal_string(max_concurrent))));
    vars.push(field_var("EDGEFLOW_POD_NAME", "metadata.name"));
    vars.push(field_var("EDGEFLOW_POD_IP", "status.podIP"));
    vars.push(field_var("EDGEFLOW_NODE_NAME", "spec.nodeName"));
    vars.push(value_var("LOG_FORMAT", Some(or_default(&env.log_format, "json"))));
    vars.push(value_var("EDGEFLOW_MQTT_URL", Some(mqtt_url(env))));
    vars.push(value_var("OTEL_EXPORTER_OTLP_ENDPOINT", clone_opt(&env.otel_endpoint)));
    assert(env_views(vars@) =~= spec_pod_env(
        target@,
        *env,
        resolved_sessions(*resources, env.settings),
        resolved_max_concurrent(*resources, env.settings),
    ));
    let node_name = match node {
        Some(n) => Some(text::owned(n)),
        None => None,
    };
    InferenceDeploymentSpec {
        name,
        namespace: or_default(&env.namespace, "default"),
        labels,
        replicas: match resolved_infra.replicas {
            Some(n) => n,
            None => 1,
        },
        node_name,
        node_selector: resolved_infra.node_selector,
        placement: resolved_infra.placement,
        container_name: text::owned("edgeflow-inference"),
        image: or_default(&env.image, "edgeflow-inference:latest"),
        image_pull_policy: or_default(&env.image_pull_policy, "IfNotPresent"),
        container_port: 8080,
        env: vars,
        cpu_request,
        memory_request,
        memory_limit,
        readiness_path: text::owned("/health"),
        readiness_initial_delay_seconds: 0,
        readiness_period_seconds: 1,
        readiness_failure_threshold: 300,
    }
}

/// The session and concurrency counts written into the pod's environment
/// reach the pod unchanged: the pod reads `EDGEFLOW_SESSIONS` and
/// `EDGEFLOW_MAX_CONCURRENT_INFER` as `usize` values, and the decimal text
/// of any count from 0 to `usize::MAX` reads back as that count.
pub proof fn lemma_counts_reach_pod(n: int)
    requires
        0 <= n <= usize::MAX,
    ensures
        text::parse_unsigned(text::decimal(n), usize::MAX as nat) == Some(n as nat),
{
    text::lemma_parse_decimal_roundtrip(n as nat, usize::MAX as nat);
}

// ---------------------------------------------------------------------------
// Patching the resources of a running Deployment
// ---------------------------------------------------------------------------

/// A container of the current Deployment, as the patch reads it: its name
/// and its environment variables as `(name, value)`.
pub struct ContainerEnv {
    pub name: String,
    pub env: Option<Vec<(String, Option<String>)>>,
}

/// The views of a list of environment variables given as `(name, value)`.
pub open spec fn value_views(v: Seq<(String, Option<String>)>) -> Seq<(Seq<char>, Option<Seq<char>>)> {
    v.map_values(|e: (String, Option<String>)| (e.0@, config::opt_view(e.1)))
}

/// The changes a resource patch makes to the current Deployment.
pub struct ResourcePatch {
    /// The container to update: the first one named `edgeflow-inference`.
    pub container: usize,
    /// New `(cpu request, memory request, memory limit)` of that container,
    /// replacing its resource requirements.
    pub requests: Option<(String, String, String)>,
    /// The container's environment after the update.
    pub env: Option<Vec<(String, Option<String>)>>,
    /// New replica count.
    pub replicas: Option<i32>,
    /// New node selector.
    pub node_selector: Option<BTreeMap<String, String>>,
    /// New affinity rule (`Some(None)` clears any existing rule).
    pub affinity: Option<Option<Placement>>,
}

/// The first container named `edgeflow-inference`.
pub open spec fn spec_inference_container(cs: Seq<ContainerEnv>) -> Option<int> {
    if exists|i: int| 0 <= i < cs.len() && cs[i].name@ == "edgeflow-inference"@ {
        Some(
            choose|i: int|
                0 <= i < cs.len() && cs[i].name@ == "edgeflow-inference"@ && forall|j: int|
                    0 <= j < i ==> cs[j].name@ != "edgeflow-inference"@,
        )
    } else {
        None
    }
}

/// The environment with `EDGEFLOW_SESSIONS` and
/// `EDGEFLOW_MAX_CONCURRENT_INFER` set to the given values; every other
/// variable is unchanged.
pub open spec fn updated_env(
    vars: Seq<(Seq<char>, Option<Seq<char>>)>,
    sessions: Seq<char>,
    max_concurrent: Seq<char>,
) -> Seq<(Seq<char>, Option<Seq<char>>)> {
    vars.map_values(
        |v: (Seq<char>, Option<Seq<char>>)|
            if v.0 == "EDGEFLOW_SESSIONS"@ {
                (v.0, Some(sessions))
            } else if v.0 == "EDGEFLOW_MAX_CONCURRENT_INFER"@ {
                (v.0, Some(max_concurrent))
            } else {
                v
            },
    )
}

fn find_inference_container(cs: &Vec<ContainerEnv>) -> (r: Option<usize>)
    ensures
        match r {
            Some(i) => spec_inference_container(cs@) == Some(i as int) && i < cs@.len(),
            None => spec_inference_container(cs@) is None,
        },
{
    let mut i: usize = 0;
    while i < cs.len()
        invariant
            0 <= i <= cs@.len(),
            forall|j: int| 0 <= j < i ==> cs@[j].name@ != "edgeflow-inference"@,
        decreases cs@.len() - i,
    {
        let c = text::chars_of(cs[i].name.as_str());
        if text::chars_eq_str(c.as_slice(), "edgeflow-inference") {
            proof {
                let w = choose|k: int|
                    0 <= k < cs@.len() && cs@[k].name@ == "edgeflow-inference"@ && forall|j: int|
                        0 <= j < k ==> cs@[j].name@ != "edgeflow-inference"@;
                assert(0 <= i < cs@.len() && cs@[i as int].name@ == "edgeflow-inference"@);
                if w < i {
                } else if w > i {
                }
            }
            return Some(i);
        }
        i = i + 1;
    }
    None
}

fn update_env_values(vars: &Vec<(String, Option<String>)>, sessions: &String, max_concurrent: &String) -> (r: Vec<(String, Option<String>)>)
    ensures
        value_views(r@) == updated_env(value_views(vars@), sessions@, max_concurrent@),
{
    let mut out: Vec<(String, Option<String>)> = Vec::new();
    let mut i: usize = 0;
    while i < vars.len()
        invariant
            0 <= i <= vars@.len(),
            value_views(out@) == updated_env(
                value_views(vars@.subrange(0, i as int)),
                sessions@,
                max_concurrent@,
            ),
        decreases vars@.len() - i,
    {
        let name = vars[i].0.clone();
        let c = text::chars_of(name.as_str());
        let value = if text::chars_eq_str(c.as_slice(), "EDGEFLOW_SESSIONS") {
            Some(sessions.clone())
        } else if text::chars_eq_str(c.as_slice(), "EDGEFLOW_MAX_CONCURRENT_INFER") {
            Some(max_concurrent.clone())
        } else {
            clone_opt(&vars[i].1)
        };
        let ghost prev = value_views(out@);
        let ghost old_v = (vars@[i as int].0@, config::opt_view(vars@[i as int].1));
        let ghost new_v = (name@, config::opt_view(value));
        assert(new_v == (if old_v.0 == "EDGEFLOW_SESSIONS"@ {
            (old_v.0, Some(sessions@))
        } else if old_v.0 == "EDGEFLOW_MAX_CONCURRENT_INFER"@ {
            (old_v.0, Some(max_concurrent@))
        } else {
            old_v
        }));
        assert(value_views(vars@.subrange(0, i + 1)) =~= value_views(vars@.subrange(0, i as int)).push(old_v));
        out.push((name, value));
        assert(value_views(out@) =~= prev.push(new_v));
        i = i + 1;
        assert(value_views(out@) =~= updated_env(
            value_views(vars@.subrange(0, i as int)),
            sessions@,
            max_concurrent@,
        ));
    }
    assert(vars@.subrange(0, vars@.len() as int) =~= vars@);
    out
}

/// The patch that updates the resource settings of a running inference
/// Deployment, read-modify-write: only the provided parts change.
///
/// `None` when the Deployment has no pod spec (`has_pod_spec` is false) or
/// no container named `edgeflow-inference`: nothing can be updated.
/// With `infra`, the container's requests and limits are replaced (with the
/// resolved cpu request, memory request and memory limit), and the replica
/// count (when given), the node selector (when given) and the affinity
/// (always: `None` clears it) are set. With `resources`, the container's
/// `EDGEFLOW_SESSIONS` and `EDGEFLOW_MAX_CONCURRENT_INFER` variables are set
/// to the resolved values, when the container declares an environment.
pub fn plan_resource_patch(
    has_pod_spec: bool,
    containers: &Vec<ContainerEnv>,
    resources: Option<&ResourceSettings>,
    infra: Option<&InfraSettings>,
    env: &SettingsEnv,
) -> (r: Option<ResourcePatch>)
    ensures
        r is None <==> (!has_pod_spec || spec_inference_container(containers@) is None),
        r matches Some(p) ==> {
            &&& spec_inference_container(containers@) == Some(p.container as int)
            &&& match infra {
                Some(inf) => {
                    &&& p.requests matches Some(t) && t.0@ == resolved_str(inf.cpu_request, env.cpu_request, "100m"@)
                        && t.1@ == resolved_str(inf.memory_request, env.memory_request, "256Mi"@)
                        && t.2@ == resolved_str(inf.memory_limit, env.memory_limit, "512Mi"@)
                    &&& p.replicas == inf.replicas
                    &&& same_selector(p.node_selector, inf.node_selector)
                    &&& p.affinity == Some(inf.placement)
                },
                None => {
                    &&& p.requests is None
                    &&& p.replicas is None
                    &&& p.node_selector is None
                    &&& p.affinity is None
                },
            }
            &&& match (resources, containers@[p.container as int].env) {
                (Some(res), Some(vars)) => p.env matches Some(e) && value_views(e@) == updated_env(
                    value_views(vars@),
                    text::decimal(resolved_sessions(*res, *env)),
                    text::decimal(resolved_max_concurrent(*res, *env)),
                ),
                _ => p.env is None,
            }
        },
{
    if !has_pod_spec {
        return None;
    }
    let idx = match find_inference_container(containers) {
        Some(i) => i,
        None => return None,
    };
    let requests = match infra {
        Some(inf) => {
            let resolved = resolve_infra(inf, env);
            let cpu = match resolved.cpu_request {
                Some(v) => v,
                None => text::owned("100m"),
            };
            let mem_req = match resolved.memory_request {
                Some(v) => v,
                None => text::owned("256Mi"),
            };
            let mem_lim = match resolved.memory_limit {
                Some(v) => v,
                None => text::owned("512Mi"),
            };
            Some((cpu, mem_req, mem_lim))
        },
        None => None,
    };
    let new_env = match resources {
        Some(res) => {
            let resolved = resolve_resources(res, env);
            let sessions: i64 = match resolved.sessions {
                Some(v) => v,
                None => 1,
            };
            let max_concurrent: i64 = match resolved.max_concurrent {
                Some(v) => v,
                None => sessions,
            };
            match &containers[idx].env {
                Some(vars) => {
                    let s = decimal_string(sessions);
                    let m = decimal_string(max_concurrent);
                    Some(update_env_values(vars, &s, &m))
                },
                None => None,
            }
        },
        None => None,
    };
    let (replicas, node_selector, affinity) = match infra {
        Some(inf) => (inf.replicas, clone_selector(&inf.node_selector), Some(inf.placement)),
        None => (None, None, None),
    };
    Some(ResourcePatch {
        container: idx,
        requests,
        env: new_env,
        replicas,
        node_selector,
        affinity,
    })
}

// ---------------------------------------------------------------------------
// Reading infra settings back from a Deployment
// ---------------------------------------------------------------------------

/// The resource entries of a container that infra settings come from.
pub struct ContainerResources {
    /// `resources.requests["cpu"]`
    pub cpu_request: Option<String>,
    /// `resources.requests["memory"]`
    pub memory_request: Option<String>,
    /// `resources.limits["memory"]`
    pub memory_limit: Option<String>,
}

/// The affinity rule of a pod spec, as the number of preferred terms of
/// each kind (`None` when that part is absent).
pub struct AffinitySnapshot {
    /// Preferred pod anti-affinity terms.
    pub anti_affinity_terms: Option<usize>,
    /// Preferred pod affinity terms.
    pub affinity_terms: Option<usize>,
}

/// What reading infra settings needs of a k8s Deployment.
pub struct DeploymentSnapshot {
    /// Whether `spec` is present.
    pub has_spec: bool,
    /// `spec.replicas`
    pub replicas: Option<i32>,
    /// Whether `spec.template.spec` is present.
    pub has_pod_spec: bool,
    /// The resources of the first container, if there is one.
    pub first_container: Option<ContainerResources>,
    /// `spec.template.spec.nodeSelector`
    pub node_selector: Option<BTreeMap<String, String>>,
    /// `spec.template.spec.affinity`
    pub affinity: Option<AffinitySnapshot>,
}

/// The placement an affinity rule expresses: anti-affinity terms mean
/// `Spread`, else affinity terms mean `Pack`, else none.
pub open spec fn spec_placement(a: Option<AffinitySnapshot>) -> Option<Placement> {
    match a {
        None => None,
        Some(s) => {
            let anti = match s.anti_affinity_terms { Some(n) => n > 0, None => false };
            let pack = match s.affinity_terms { Some(n) => n > 0, None => false };
            if anti {
                Some(Placement::Spread)
            } else if pack {
                Some(Placement::Pack)
            } else {
                None
            }
        },
    }
}

/// The placement that an affinity rule expresses.
pub fn placement_from_affinity(a: &Option<AffinitySnapshot>) -> (r: Option<Placement>)
    ensures
        r == spec_placement(*a),
{
    match a {
        None => None,
        Some(s) => {
            let anti = match s.anti_affinity_terms {
                Some(n) => n > 0,
                None => false,
            };
            let pack = match s.affinity_terms {
                Some(n) => n > 0,
                None => false,
            };
            if anti {
                Some(Placement::Spread)
            } else if pack {
                Some(Placement::Pack)
            } else {
                None
            }
        },
    }
}

/// Whether `inf` holds the infra settings that Deployment `d` carries: the
/// first container's requests and limit, the replica count, the placement
/// its affinity expresses, and its node selector.
pub open spec fn reads_infra(d: DeploymentSnapshot, inf: InfraSettings) -> bool {
    &&& config::opt_view(inf.cpu_request) == (match d.first_container {
        Some(c) => config::opt_view(c.cpu_request),
        None => None,
    })
    &&& config::opt_view(inf.memory_request) == (match d.first_container {
        Some(c) => config::opt_view(c.memory_request),
        None => None,
    })
    &&& config::opt_view(inf.memory_limit) == (match d.first_container {
        Some(c) => config::opt_view(c.memory_limit),
        None => None,
    })
    &&& inf.replicas == d.replicas
    &&& inf.placement == spec_placement(d.affinity)
    &&& same_selector(inf.node_selector, d.node_selector)
}

/// Read infrastructure settings from the k8s Deployment spec. `None` when
/// the Deployment has no spec or no pod template spec.
pub fn infra_from_deployment(d: &DeploymentSnapshot) -> (r: Option<InfraSettings>)
    ensures
        r is Some <==> (d.has_spec && d.has_pod_spec),
        r matches Some(inf) ==> reads_infra(*d, inf),
{
    if !d.has_spec || !d.has_pod_spec {
        return None;
    }
    let (cpu_request, memory_request, memory_limit) = match &d.first_container {
        Some(c) => (clone_opt(&c.cpu_request), clone_opt(&c.memory_request), clone_opt(&c.memory_limit)),
        None => (None, None, None),
    };
    Some(InfraSettings {
        cpu_request,
        memory_request,
        memory_limit,
        replicas: d.replicas,
        placement: placement_from_affinity(&d.affinity),
        node_selector: clone_selector(&d.node_selector),
    })
}

/// What the Deployment built from manifest `d` reads as: a spec and a pod
/// spec, `d`'s replica count, node selector and requests on its one
/// container, and one preferred anti-affinity term for `Spread` or one
/// preferred affinity term for `Pack`.
pub open spec fn spec_created_snapshot(d: InferenceDeploymentSpec) -> DeploymentSnapshot {
    DeploymentSnapshot {
        has_spec: true,
        replicas: Some(d.replicas),
        has_pod_spec: true,
        first_container: Some(
            ContainerResources {
                cpu_request: Some(d.cpu_request),
                memory_request: Some(d.memory_request),
                memory_limit: Some(d.memory_limit),
            },
        ),
        node_selector: d.node_selector,
        affinity: match d.placement {
            None => None,
            Some(Placement::Spread) => Some(AffinitySnapshot { anti_affinity_terms: Some(1), affinity_terms: None }),
            Some(Placement::Pack) => Some(AffinitySnapshot { anti_affinity_terms: None, affinity_terms: Some(1) }),
        },
    }
}

/// Reading back a created Deployment gives the resolved settings it was
/// created with: the resolved cpu request, memory request and memory limit,
/// the replica count (1 when unset), the placement and the node selector.
pub proof fn lemma_created_deployment_reads_back(
    d: InferenceDeploymentSpec,
    target: Seq<char>,
    node: Option<Seq<char>>,
    resources: ResourceSettings,
    infra: InfraSettings,
    env: DeployEnv,
    inf: InfraSettings,
)
    requires
        is_inference_deployment(d, target, node, resources, infra, env),
        reads_infra(spec_created_snapshot(d), inf),
    ensures
        config::opt_view(inf.cpu_request) == Some(
            resolved_str(infra.cpu_request, env.settings.cpu_request, "100m"@),
        ),
        config::opt_view(inf.memory_request) == Some(
            resolved_str(infra.memory_request, env.settings.memory_request, "256Mi"@),
        ),
        config::opt_view(inf.memory_limit) == Some(
            resolved_str(infra.memory_limit, env.settings.memory_limit, "512Mi"@),
        ),
        inf.replicas == Some(match infra.replicas { Some(n) => n, None => 1i32 }),
        inf.placement == infra.placement,
        same_selector(inf.node_selector, infra.node_selector),
{
}

// ---------------------------------------------------------------------------
// Laws of the settings, pod health, manifest and patch
// ---------------------------------------------------------------------------

/// A string setting resolves to the user's value when there is one,
/// whatever the environment holds; else to the environment's value; else
/// to the default.
pub proof fn lemma_resolved_str(user: Option<String>, var: Option<String>, default: Seq<char>)
    ensures
        user matches Some(u) ==> resolved_str(user, var, default) == u@,
        user is None ==> (var matches Some(v) ==> resolved_str(user, var, default) == v@),
        (user is None && var is None) ==> resolved_str(user, var, default) == default,
{
}

/// Sessions resolve to the user's count, else to a parsable environment
/// value, else to 1; max concurrency to the user's count, else to a
/// parsable environment value, else to the resolved sessions.
pub proof fn lemma_resolved_counts(res: ResourceSettings, env: SettingsEnv)
    ensures
        res.sessions matches Some(v) ==> resolved_sessions(res, env) == v,
        res.sessions is None ==> (env.sessions matches Some(s) ==> (text::parse_i64(s@) matches Some(
            v,
        ) ==> resolved_sessions(res, env) == v)),
        (res.sessions is None && (env.sessions is None || text::parse_i64(env.sessions->0@) is None))
            ==> resolved_sessions(res, env) == 1,
        res.max_concurrent matches Some(v) ==> resolved_max_concurrent(res, env) == v,
        res.max_concurrent is None ==> (env.max_concurrent matches Some(s) ==> (text::parse_i64(
            s@,
        ) matches Some(v) ==> resolved_max_concurrent(res, env) == v)),
        (res.max_concurrent is None && (env.max_concurrent is None || text::parse_i64(
            env.max_concurrent->0@,
        ) is None)) ==> resolved_max_concurrent(res, env) == resolved_sessions(res, env),
{
}

/// A pod's readiness is the status of its first `Ready` condition,
/// wherever that condition stands in the list.
pub proof fn lemma_ready_is_first_ready_condition(cs: Seq<(String, String)>, i: int)
    requires
        0 <= i < cs.len(),
        cs[i].0@ == "Ready"@,
        forall|j: int| 0 <= j < i ==> cs[j].0@ != "Ready"@,
    ensures
        ready_in(cs) == (cs[i].1@ == "True"@),
    decreases i,
{
    if i > 0 {
        assert(cs[0].0@ != "Ready"@);
        lemma_ready_is_first_ready_condition(cs.drop_first(), i - 1);
    }
}

/// Without a `Ready` condition, a pod is not ready.
pub proof fn lemma_not_ready_without_condition(cs: Seq<(String, String)>)
    requires
        forall|j: int| 0 <= j < cs.len() ==> cs[j].0@ != "Ready"@,
    ensures
        !ready_in(cs),
    decreases cs.len(),
{
    if cs.len() > 0 {
        assert(cs[0].0@ != "Ready"@);
        lemma_not_ready_without_condition(cs.drop_first());
    }
}

/// A running pod is healthy exactly when its first `Ready` condition says
/// `True`, whatever conditions come before or after it; otherwise stale.
pub proof fn lemma_running_pod_health(p: PodSnapshot, i: int)
    requires
        p.phase matches Some(ph) && ph@ == "Running"@,
        p.conditions matches Some(cs) && 0 <= i < cs@.len() && cs@[i].0@ == "Ready"@ && (forall|
            j: int,
        | 0 <= j < i ==> cs@[j].0@ != "Ready"@),
    ensures
        spec_health(p) == (if p.conditions->0@[i].1@ == "True"@ {
            TargetHealth::Healthy
        } else {
            TargetHealth::Stale
        }),
{
    lemma_ready_is_first_ready_condition(p.conditions->0@, i);
}

/// The inference container's environment names the target itself
/// (`EDGEFLOW_TARGET`), and carries the resolved session and concurrency
/// counts (`EDGEFLOW_SESSIONS`, `EDGEFLOW_MAX_CONCURRENT_INFER`) as
/// decimal text that the pod parses back into those counts.
pub proof fn lemma_deployment_env(
    d: InferenceDeploymentSpec,
    target: Seq<char>,
    node: Option<Seq<char>>,
    resources: ResourceSettings,
    infra: InfraSettings,
    env: DeployEnv,
)
    requires
        is_inference_deployment(d, target, node, resources, infra, env),
    ensures
        d.env@.len() == 11,
        d.env@[1].name@ == "EDGEFLOW_TARGET"@,
        d.env@[1].source matches EnvSource::Value(Some(t)) && t@ == target,
        d.env@[3].name@ == "EDGEFLOW_SESSIONS"@,
        d.env@[4].name@ == "EDGEFLOW_MAX_CONCURRENT_INFER"@,
        d.env@[3].source matches EnvSource::Value(Some(v)) && (0 <= resolved_sessions(resources, env.settings)
            <= usize::MAX ==> text::parse_unsigned(v@, usize::MAX as nat) == Some(
            resolved_sessions(resources, env.settings) as nat,
        )),
        d.env@[4].source matches EnvSource::Value(Some(v)) && (0 <= resolved_max_concurrent(
            resources,
            env.settings,
        ) <= usize::MAX ==> text::parse_unsigned(v@, usize::MAX as nat) == Some(
            resolved_max_concurrent(resources, env.settings) as nat,
        )),
{
    let ev = env_views(d.env@);
    assert(ev.len() == d.env@.len());
    assert(ev[1] == d.env@[1]@);
    assert(ev[3] == d.env@[3]@);
    assert(ev[4] == d.env@[4]@);
    let s = resolved_sessions(resources, env.settings);
    let m = resolved_max_concurrent(resources, env.settings);
    if 0 <= s <= usize::MAX {
        lemma_counts_reach_pod(s);
    }
    if 0 <= m <= usize::MAX {
        lemma_counts_reach_pod(m);
    }
}

/// The patched environment keeps every variable's name and place; it sets
/// `EDGEFLOW_SESSIONS` to the sessions text and
/// `EDGEFLOW_MAX_CONCURRENT_INFER` to the concurrency text, and leaves
/// every other variable's value unchanged.
pub proof fn lemma_updated_env(
    vars: Seq<(Seq<char>, Option<Seq<char>>)>,
    sessions: Seq<char>,
    max_concurrent: Seq<char>,
)
    ensures
        updated_env(vars, sessions, max_concurrent).len() == vars.len(),
        forall|i: int|
            0 <= i < vars.len() ==> {
                let u = #[trigger] updated_env(vars, sessions, max_concurrent)[i];
                &&& u.0 == vars[i].0
                &&& vars[i].0 == "EDGEFLOW_SESSIONS"@ ==> u.1 == Some(sessions)
                &&& vars[i].0 == "EDGEFLOW_MAX_CONCURRENT_INFER"@ ==> u.1 == Some(max_concurrent)
                &&& (vars[i].0 != "EDGEFLOW_SESSIONS"@ && vars[i].0
                    != "EDGEFLOW_MAX_CONCURRENT_INFER"@) ==> u.1 == vars[i].1
            },
{
    reveal_strlit("EDGEFLOW_SESSIONS");
    reveal_strlit("EDGEFLOW_MAX_CONCURRENT_INFER");
    assert("EDGEFLOW_SESSIONS"@.len() != "EDGEFLOW_MAX_CONCURRENT_INFER"@.len());
}

} // verus!

