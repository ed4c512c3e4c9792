//! Typed configuration for edgeflow services.
//!
//! Each service has a `*Config` struct built from the values of its
//! environment variables: defaults are applied, and a clear error is given
//! for any required variable that is missing. Reading the environment itself
//! happens in the binaries, which hand the values (`None` for an unset
//! variable) to the constructors here.
use vstd::prelude::*;
use crate::text;

verus! {

// ---------------------------------------------------------------------------
// Environment
// ---------------------------------------------------------------------------

pub enum Environment {
    Development,
    Production,
}

impl Environment {
    /// The environment named by the value of `EDGEFLOW_ENV`: `Production`
    /// exactly when the value is `production`, compared ignoring ASCII case.
    pub fn from_env_value(value: Option<&str>) -> (r: Environment)
        ensures
            (r is Production) <==> (value is Some && text::eq_ignore_ascii_case(
                value->0@,
                "production"@,
            )),
    {
        match value {
            Some(v) => {
                let c = text::chars_of(v);
                let p = text::chars_of("production");
                if text::eq_ignore_ascii_case_exec(c.as_slice(), p.as_slice()) {
                    Environment::Production
                } else {
                    Environment::Development
                }
            },
            None => Environment::Development,
        }
    }

    pub fn is_production(&self) -> (r: bool)
        ensures
            r == (*self is Production),
    {
        match self {
            Environment::Production => true,
            Environment::Development => false,
        }
    }
}

// ---------------------------------------------------------------------------
// Errors
// ---------------------------------------------------------------------------

/// A configuration that cannot be built.
#[derive(Debug, Clone, PartialEq, Eq, Structural)]
pub enum ConfigError {
    /// `EDGEFLOW_SERVER` is unset.
    MissingServer,
    /// `EDGEFLOW_TARGET` is unset.
    MissingTarget,
    /// `EDGEFLOW_ORCHESTRATOR=compose` without `EDGEFLOW_COMPOSE_INFERENCE_URL`.
    ComposeWithoutInferenceUrl,
}

impl ConfigError {
    pub open spec fn spec_message(self) -> Seq<char> {
        match self {
            ConfigError::MissingServer => "EDGEFLOW_SERVER is required (e.g. http://edgeflow-server:5000)"@,
            ConfigError::MissingTarget => "EDGEFLOW_TARGET is required (e.g. iris-inference)"@,
            ConfigError::ComposeWithoutInferenceUrl => "EDGEFLOW_ORCHESTRATOR=compose requires EDGEFLOW_COMPOSE_INFERENCE_URL"@,
        }
    }

    /// The message shown to the operator.
    pub fn message(&self) -> (r: String)
        ensures
            r@ == self.spec_message(),
    {
        match self {
            ConfigError::MissingServer => text::owned(
                "EDGEFLOW_SERVER is required (e.g. http://edgeflow-server:5000)",
            ),
            ConfigError::MissingTarget => text::owned("EDGEFLOW_TARGET is required (e.g. iris-inference)"),
            ConfigError::ComposeWithoutInferenceUrl => text::owned(
                "EDGEFLOW_ORCHESTRATOR=compose requires EDGEFLOW_COMPOSE_INFERENCE_URL",
            ),
        }
    }
}

/// The view of an optional owned string.
pub open spec fn opt_view(o: Option<String>) -> Option<Seq<char>> {
    match o {
        Some(s) => Some(s@),
        None => None,
    }
}

fn clone_opt(o: &Option<String>) -> (r: Option<String>)
    ensures
        opt_view(r) == opt_view(*o),
{
    match o {
        Some(s) => Some(s.clone()),
        None => None,
    }
}

// ---------------------------------------------------------------------------
// Inference pod config
// ---------------------------------------------------------------------------

/// The values of the environment variables that configure an inference pod
/// (`None` for an unset variable).
pub struct InferenceEnv {
    /// `EDGEFLOW_SERVER`
    pub server: Option<String>,
    /// `EDGEFLOW_TARGET`
    pub target: Option<String>,
    /// `EDGEFLOW_INFER_ADDR`
    pub infer_addr: Option<String>,
    /// `EDGEFLOW_POD_NAME`
    pub pod_name: Option<String>,
    /// `HOSTNAME`
    pub hostname: Option<String>,
    /// `EDGEFLOW_POD_IP`
    pub pod_ip: Option<String>,
    /// `EDGEFLOW_SESSIONS`
    pub sessions: Option<String>,
    /// `EDGEFLOW_MAX_CONCURRENT_INFER`
    pub max_concurrent: Option<String>,
    /// `EDGEFLOW_NODE_NAME`
    pub node_name: Option<String>,
    /// `EDGEFLOW_MQTT_URL`
    pub mqtt_url: Option<String>,
    /// `EDGEFLOW_POD_DYNAMIC_TOPIC`
    pub dynamic_topic: Option<String>,
}

pub struct InferenceConfig {
    /// URL of the edgeflow-server.
    pub server_url: String,
    /// Deployment target name this pod serves.
    pub target: String,
    /// Address the HTTP inference server binds to. Default: `0.0.0.0:8080`.
    pub infer_addr: String,
    /// Advertised address used when registering with the server.
    pub self_address: String,
    /// k8s node name, if available.
    pub node_name: Option<String>,
    /// Pod identity used for registration. Falls back to `target`.
    pub pod_id: String,
    /// Pipeline pool size (pre/post WASM contexts per request slot). The
    /// ORT session is shared across slots, so this does NOT scale model
    /// weights. Default: `1`.
    pub sessions: usize,
    /// Max concurrent inference requests. Default: `sessions`.
    pub max_concurrent: usize,
    /// External MQTT broker URL. If absent the server's embedded broker is used.
    pub mqtt_url: Option<String>,
    /// When true, subscribe to `edgeflow/targets/+/commands` (wildcard) instead
    /// of the target-specific topic. Used in compose mode so the pod picks up
    /// upgrade commands for any target name the user deploys to.
    pub dynamic_topic: bool,
}

/// The bind address: the value of `EDGEFLOW_INFER_ADDR`, or `0.0.0.0:8080`.
pub open spec fn spec_infer_addr(env: InferenceEnv) -> Seq<char> {
    match env.infer_addr {
        Some(a) => a@,
        None => "0.0.0.0:8080"@,
    }
}

/// The pod IP: `EDGEFLOW_POD_IP`, or else the host part of the bind address
/// (before its first `:`) with `0.0.0.0` replaced by `127.0.0.1`.
pub open spec fn spec_pod_ip(env: InferenceEnv) -> Seq<char> {
    match env.pod_ip {
        Some(ip) => ip@,
        None => text::replace(text::split(spec_infer_addr(env), ':')[0], "0.0.0.0"@, "127.0.0.1"@),
    }
}

/// The port: the part of the bind address after its last `:`.
pub open spec fn spec_port(env: InferenceEnv) -> Seq<char> {
    text::split(spec_infer_addr(env), ':').last()
}

/// A count read from a variable: its `usize` value when it parses, else `default`.
pub open spec fn spec_count(var: Option<String>, default: nat) -> nat {
    match var {
        Some(s) => match text::parse_unsigned(s@, usize::MAX as nat) {
            Some(v) => v,
            None => default,
        },
        None => default,
    }
}

/// `true` exactly when the variable is set to `true` (ignoring ASCII case) or `1`.
pub open spec fn spec_flag(var: Option<String>) -> bool {
    match var {
        Some(s) => text::eq_ignore_ascii_case(s@, "true"@) || s@ == "1"@,
        None => false,
    }
}

/// The pod identity: `EDGEFLOW_POD_NAME`, else `HOSTNAME`, else the target.
pub open spec fn spec_pod_id(env: InferenceEnv) -> Seq<char> {
    match env.pod_name {
        Some(n) => n@,
        None => match env.hostname {
            Some(h) => h@,
            None => env.target->0@,
        },
    }
}

fn parse_count(var: &Option<String>, default: usize) -> (r: usize)
    ensures
        r == spec_count(*var, default as nat),
{
    match var {
        Some(s) => {
            let c = text::chars_of(s.as_str());
            match text::parse_usize(c.as_slice()) {
                Some(v) => v,
                None => default,
            }
        },
        None => default,
    }
}

fn parse_flag(var: &Option<String>) -> (r: bool)
    ensures
        r == spec_flag(*var),
{
    match var {
        Some(s) => {
            let c = text::chars_of(s.as_str());
            let t = text::chars_of("true");
            text::eq_ignore_ascii_case_exec(c.as_slice(), t.as_slice()) || text::chars_eq_str(
                c.as_slice(),
                "1",
            )
        },
        None => false,
    }
}

impl InferenceConfig {
    /// Builds the inference pod configuration from the values of its
    /// environment variables. `EDGEFLOW_SERVER` and `EDGEFLOW_TARGET` are
    /// required, in that order; every other variable has a default.
    pub fn from_env_values(env: &InferenceEnv) -> (r: Result<InferenceConfig, ConfigError>)
        ensures
            env.server is None ==> r == Err::<InferenceConfig, ConfigError>(
                ConfigError::MissingServer,
            ),
            env.server is Some && env.target is None ==> r == Err::<
                InferenceConfig,
                ConfigError,
            >(ConfigError::MissingTarget),
            env.server is Some && env.target is Some ==> r is Ok,
            r matches Ok(c) ==> {
                &&& c.server_url@ == env.server->0@
                &&& c.target@ == env.target->0@
                &&& c.infer_addr@ == spec_infer_addr(*env)
                &&& c.self_address@ == "http://"@ + spec_pod_ip(*env) + ":"@ + spec_port(*env)
                &&& opt_view(c.node_name) == opt_view(env.node_name)
                &&& c.pod_id@ == spec_pod_id(*env)
                &&& c.sessions == spec_count(env.sessions, 1)
                &&& c.max_concurrent == spec_count(env.max_concurrent, spec_count(env.sessions, 1))
                &&& opt_view(c.mqtt_url) == opt_view(env.mqtt_url)
                &&& c.dynamic_topic == spec_flag(env.dynamic_topic)
            },
    {
        let server_url = match &env.server {
            Some(s) => s.clone(),
            None => return Err(ConfigError::MissingServer),
        };
        let target = match &env.target {
            Some(t) => t.clone(),
            None => return Err(ConfigError::MissingTarget),
        };
        let infer_addr = match &env.infer_addr {
            Some(a) => a.clone(),
            None => text::owned("0.0.0.0:8080"),
        };
        let pod_id = match &env.pod_name {
            Some(n) => n.clone(),
            None => match &env.hostname {
                Some(h) => h.clone(),
                None => target.clone(),
            },
        };
        let addr_chars = text::chars_of(infer_addr.as_str());
        let parts = text::split_chars(addr_chars.as_slice(), ':');
        proof {
            text::lemma_split_nonempty(addr_chars@, ':');
        }
        assert(text::char_views(parts@) == text::split(spec_infer_addr(*env), ':'));
        let pod_ip: Vec<char> = match &env.pod_ip {
            Some(ip) => text::chars_of(ip.as_str()),
            None => {
                let host = &parts[0];
                let from = text::chars_of("0.0.0.0");
                let to = text::chars_of("127.0.0.1");
                proof {
                    reveal_strlit("0.0.0.0");
                }
                text::replace_chars(host.as_slice(), from.as_slice(), to.as_slice())
            },
        };
        let port = &parts[parts.len() - 1];
        let mut addr: Vec<char> = Vec::new();
        text::push_str(&mut addr, "http://");
        text::push_all(&mut addr, pod_ip.as_slice());
        addr.push(':');
        text::push_all(&mut addr, port.as_slice());
        assert(addr@ =~= "http://"@ + spec_pod_ip(*env) + seq![':'] + spec_port(*env));
        proof {
            reveal_strlit(":");
        }
        let self_address = text::string_from_chars(addr.as_slice());
        let sessions = parse_count(&env.sessions, 1);
        let max_concurrent = parse_count(&env.max_concurrent, sessions);
        Ok(InferenceConfig {
            server_url,
            target,
            infer_addr,
            self_address,
            node_name: clone_opt(&env.node_name),
            pod_id,
            sessions,
            max_concurrent,
            mqtt_url: clone_opt(&env.mqtt_url),
            dynamic_topic: parse_flag(&env.dynamic_topic),
        })
    }
}

// ---------------------------------------------------------------------------
// Orchestrator kind and CORS policy
// ---------------------------------------------------------------------------

/// Which substrate runs inference pods. Defaults to `K8s`.
#[derive(Debug, Clone, Copy, PartialEq, Eq, Structural)]
pub enum OrchestratorKind {
    K8s,
    Compose,
}

/// CORS policy for the server's HTTP surface. Defaults to `Disabled` -
/// the docker-compose demo serves the UI from the same origin, so CORS
/// is unnecessary, and a permissive default would be needlessly open.
#[derive(Debug, Clone, PartialEq, Eq)]
pub enum CorsPolicy {
    /// No CORS layer. The browser's Same-Origin Policy applies; same-origin
    /// requests work, cross-origin browser requests are blocked by the
    /// browser. curl and server-to-server clients are unaffected.
    Disabled,
    /// Any origin, any method, any header. Set
    /// `EDGEFLOW_CORS_ALLOW_ORIGINS=*` to opt in.
    Any,
    /// Exact-match allowlist of origins, e.g.
    /// `EDGEFLOW_CORS_ALLOW_ORIGINS=https://dashboard.example.com,https://other.example.com`.
    Allowlist(Vec<String>),
}

/// The pieces of `ps` that are not empty, in order.
pub open spec fn nonempty_only(ps: Seq<Seq<char>>) -> Seq<Seq<char>>
    decreases ps.len(),
{
    if ps.len() == 0 {
        Seq::<Seq<char>>::empty()
    } else {
        let prev = nonempty_only(ps.drop_last());
        if ps.last().len() > 0 {
            prev.push(ps.last())
        } else {
            prev
        }
    }
}

/// The origins of a comma-separated list: each entry trimmed, empty
/// entries dropped.
pub open spec fn allowlist_of(s: Seq<char>) -> Seq<Seq<char>> {
    nonempty_only(text::split(s, ',').map_values(|p: Seq<char>| text::trim(p)))
}

/// The policy that a value of `EDGEFLOW_CORS_ALLOW_ORIGINS` selects, as a
/// predicate on the parsed result.
pub open spec fn cors_parsed(value: Option<Seq<char>>, p: CorsPolicy) -> bool {
    match value {
        None => p is Disabled,
        Some(s) => if text::trim(s).len() == 0 {
            p is Disabled
        } else if text::trim(s) == seq!['*'] {
            p is Any
        } else {
            p matches CorsPolicy::Allowlist(v) && text::views(v@) == allowlist_of(s)
        },
    }
}

proof fn lemma_nonempty_only_members(ps: Seq<Seq<char>>)
    ensures
        forall|i: int|
            0 <= i < nonempty_only(ps).len() ==> (#[trigger] nonempty_only(ps)[i]).len() > 0
                && exists|j: int| 0 <= j < ps.len() && ps[j] == nonempty_only(ps)[i],
    decreases ps.len(),
{
    if ps.len() > 0 {
        lemma_nonempty_only_members(ps.drop_last());
        let prev = nonempty_only(ps.drop_last());
        let cur = nonempty_only(ps);
        assert forall|i: int| 0 <= i < cur.len() implies (#[trigger] cur[i]).len() > 0 && exists|j: int|
            0 <= j < ps.len() && ps[j] == cur[i] by {
            if i < prev.len() {
                assert(cur[i] == prev[i]);
                let j = choose|j: int| 0 <= j < ps.drop_last().len() && ps.drop_last()[j] == prev[i];
                assert(ps[j] == cur[i]);
            } else {
                assert(cur[i] == ps.last());
                assert(ps[ps.len() - 1] == cur[i]);
            }
        }
    }
}

/// Every origin of an allowlist is non-empty, holds no comma, and has no
/// whitespace around it.
pub proof fn lemma_allowlist_origins_are_clean(s: Seq<char>)
    ensures
        forall|i: int|
            0 <= i < allowlist_of(s).len() ==> {
                let o = #[trigger] allowlist_of(s)[i];
                &&& o.len() > 0
                &&& text::trim(o) == o
                &&& forall|k: int| 0 <= k < o.len() ==> o[k] != ','
            },
{
    let pieces = text::split(s, ',');
    let trimmed = pieces.map_values(|p: Seq<char>| text::trim(p));
    lemma_nonempty_only_members(trimmed);
    text::lemma_split_pieces_lack_sep(s, ',');
    assert forall|i: int| 0 <= i < allowlist_of(s).len() implies {
        let o = #[trigger] allowlist_of(s)[i];
        &&& o.len() > 0
        &&& text::trim(o) == o
        &&& forall|k: int| 0 <= k < o.len() ==> o[k] != ','
    } by {
        let o = allowlist_of(s)[i];
        let j = choose|j: int| 0 <= j < trimmed.len() && trimmed[j] == o;
        let p = pieces[j];
        text::lemma_trim_shape(p);
        let (a, b) = choose|a: int, b: int| 0 <= a <= b <= p.len() && text::trim(p) == p.subrange(a, b);
        assert forall|k: int| 0 <= k < o.len() implies o[k] != ',' by {
            assert(o[k] == p[a + k]);
        }
    }
}

fn trimmed_nonempty(pieces: &Vec<Vec<char>>) -> (r: Vec<String>)
    ensures
        text::views(r@) == nonempty_only(text::char_views(pieces@).map_values(|p: Seq<char>| text::trim(p))),
{
    let mut out: Vec<String> = Vec::new();
    let mut i: usize = 0;
    while i < pieces.len()
        invariant
            0 <= i <= pieces@.len(),
            text::views(out@) == nonempty_only(
                text::char_views(pieces@.subrange(0, i as int)).map_values(|p: Seq<char>| text::trim(p)),
            ),
        decreases pieces@.len() - i,
    {
        let t = text::trim_chars(pieces[i].as_slice());
        let ghost prev = text::views(out@);
        let ghost upto = text::char_views(pieces@.subrange(0, i + 1)).map_values(
            |p: Seq<char>| text::trim(p),
        );
        assert(upto.drop_last() =~= text::char_views(pieces@.subrange(0, i as int)).map_values(
            |p: Seq<char>| text::trim(p),
        ));
        assert(upto.last() == t@);
        if t.len() > 0 {
            out.push(text::string_from_chars(t.as_slice()));
            assert(text::views(out@) =~= prev.push(t@));
        }
        i = i + 1;
    }
    assert(pieces@.subrange(0, pieces@.len() as int) =~= pieces@);
    out
}

impl CorsPolicy {
    /// Pure parser for the `EDGEFLOW_CORS_ALLOW_ORIGINS` value. `None`
    /// represents an unset variable. Only a bare `*` (after trimming)
    /// means `Any`; inside a list, `*` is kept as a literal origin.
    pub fn parse(value: Option<&str>) -> (r: CorsPolicy)
        ensures
            cors_parsed(
                match value {
                    Some(s) => Some(s@),
                    None => None,
                },
                r,
            ),
    {
        match value {
            None => CorsPolicy::Disabled,
            Some(s) => {
                let c = text::chars_of(s);
                let t = text::trim_chars(c.as_slice());
                if t.len() == 0 {
                    CorsPolicy::Disabled
                } else if t.len() == 1 && t[0] == '*' {
                    assert(t@ =~= seq!['*']);
                    CorsPolicy::Any
                } else {
                    assert(t@ != seq!['*']);
                    let pieces = text::split_chars(c.as_slice(), ',');
                    CorsPolicy::Allowlist(trimmed_nonempty(&pieces))
                }
            },
        }
    }
}

// ---------------------------------------------------------------------------
// Server config
// ---------------------------------------------------------------------------

/// The values of the environment variables that configure the server
/// (`None` for an unset variable).
pub struct ServerEnv {
    /// `EDGEFLOW_DATA_DIR`
    pub data_dir: Option<String>,
    /// `EDGEFLOW_ADDR`
    pub addr: Option<String>,
    /// `EDGEFLOW_STATIC_DIR`
    pub static_dir: Option<String>,
    /// `EDGEFLOW_MQTT_URL`
    pub mqtt_url: Option<String>,
    /// `EDGEFLOW_MQTT_PORT`
    pub mqtt_port: Option<String>,
    /// `DEPLOYMENT_TIMEOUT_SECS`
    pub deployment_timeout_secs: Option<String>,
    /// `PROMETHEUS_URL`
    pub prometheus_url: Option<String>,
    /// `EDGEFLOW_ORCHESTRATOR`
    pub orchestrator: Option<String>,
    /// `EDGEFLOW_COMPOSE_INFERENCE_URL`
    pub compose_inference_url: Option<String>,
    /// `EDGEFLOW_CORS_ALLOW_ORIGINS`
    pub cors_allow_origins: Option<String>,
}

pub struct ServerConfig {
    /// Root directory for persistent data.
    pub data_dir: String,
    /// Address the HTTP server binds to. Default: `0.0.0.0:5000`.
    pub addr: String,
    /// Directory serving the UI static files. Default: `./static`.
    pub static_dir: String,
    /// External MQTT broker URL. If absent an embedded broker is started.
    pub mqtt_url: Option<String>,
    /// Port for the embedded MQTT broker (or the external one if URL is set). Default: `1883`.
    pub mqtt_port: u16,
    /// Seconds before a deployment stuck in `deploying`/`upgrading` is marked failed. Default: `300`.
    pub deployment_timeout_secs: i64,
    /// Prometheus base URL for the live-stats endpoint. Optional, if absent the
    /// `/api/v1/targets/:target/stats` endpoint returns 404 and the UI hides stats.
    pub prometheus_url: Option<String>,
    /// Selects the inference-pod runtime. Defaults to `K8s`. Set
    /// `EDGEFLOW_ORCHESTRATOR=compose` for the docker-compose demo path.
    pub orchestrator: OrchestratorKind,
    /// URL the server uses to reach the compose inference container,
    /// e.g. `http://inference:8080`. Required when `orchestrator == Compose`.
    pub compose_inference_url: Option<String>,
    /// CORS policy for the public HTTP surface. Defaults to `Disabled`.
    pub cors: CorsPolicy,
}

/// A string variable with a default.
pub open spec fn spec_or(var: Option<String>, default: Seq<char>) -> Seq<char> {
    match var {
        Some(s) => s@,
        None => default,
    }
}

/// The orchestrator the variable selects: `Compose` exactly for `compose`.
pub open spec fn spec_orchestrator(var: Option<String>) -> OrchestratorKind {
    match var {
        Some(s) => if s@ == "compose"@ {
            OrchestratorKind::Compose
        } else {
            OrchestratorKind::K8s
        },
        None => OrchestratorKind::K8s,
    }
}

/// The MQTT port: the `u16` value of the variable when it parses, else 1883.
pub open spec fn spec_mqtt_port(var: Option<String>) -> int {
    match var {
        Some(s) => match text::parse_unsigned(s@, 0xffff) {
            Some(v) => v as int,
            None => 1883,
        },
        None => 1883,
    }
}

/// The deployment timeout: the `i64` value of the variable when it parses, else 300.
pub open spec fn spec_timeout(var: Option<String>) -> int {
    match var {
        Some(s) => match text::parse_i64(s@) {
            Some(v) => v,
            None => 300,
        },
        None => 300,
    }
}

fn or_default(var: &Option<String>, default: &str) -> (r: String)
    ensures
        r@ == spec_or(*var, default@),
{
    match var {
        Some(s) => s.clone(),
        None => text::owned(default),
    }
}

impl ServerConfig {
    /// Builds the server configuration from the values of its environment
    /// variables. Fails only when compose mode is selected without the URL
    /// of the inference container.
    pub fn from_env_values(env: &ServerEnv) -> (r: Result<ServerConfig, ConfigError>)
        ensures
            (spec_orchestrator(env.orchestrator) == OrchestratorKind::Compose
                && env.compose_inference_url is None) ==> r == Err::<ServerConfig, ConfigError>(
                ConfigError::ComposeWithoutInferenceUrl,
            ),
            !(spec_orchestrator(env.orchestrator) == OrchestratorKind::Compose
                && env.compose_inference_url is None) ==> r is Ok,
            r matches Ok(c) ==> {
                &&& c.data_dir@ == spec_or(env.data_dir, "./data"@)
                &&& c.addr@ == spec_or(env.addr, "0.0.0.0:5000"@)
                &&& c.static_dir@ == spec_or(env.static_dir, "./static"@)
                &&& opt_view(c.mqtt_url) == opt_view(env.mqtt_url)
                &&& c.mqtt_port == spec_mqtt_port(env.mqtt_port)
                &&& c.deployment_timeout_secs == spec_timeout(env.deployment_timeout_secs)
                &&& opt_view(c.prometheus_url) == opt_view(env.prometheus_url)
                &&& c.orchestrator == spec_orchestrator(env.orchestrator)
                &&& opt_view(c.compose_inference_url) == opt_view(env.compose_inference_url)
                &&& cors_parsed(opt_view(env.cors_allow_origins), c.cors)
            },
    {
        let data_dir = or_default(&env.data_dir, "./data");
        let addr = or_default(&env.addr, "0.0.0.0:5000");
        let static_dir = or_default(&env.static_dir, "./static");
        let mqtt_port: u16 = match &env.mqtt_port {
            Some(s) => {
                let c = text::chars_of(s.as_str());
                match text::parse_u16(c.as_slice()) {
                    Some(v) => v,
                    None => 1883,
                }
            },
            None => 1883,
        };
        let deployment_timeout_secs: i64 = match &env.deployment_timeout_secs {
            Some(s) => {
                let c = text::chars_of(s.as_str());
                match text::parse_i64_exec(c.as_slice()) {
                    Some(v) => v,
                    None => 300,
                }
            },
            None => 300,
        };
        let orchestrator = match &env.orchestrator {
            Some(s) => {
                let c = text::chars_of(s.as_str());
                if text::chars_eq_str(c.as_slice(), "compose") {
                    OrchestratorKind::Compose
                } else {
                    OrchestratorKind::K8s
                }
            },
            None => OrchestratorKind::K8s,
        };
        let compose_inference_url = clone_opt(&env.compose_inference_url);
        if orchestrator == OrchestratorKind::Compose && compose_inference_url.is_none() {
            return Err(ConfigError::ComposeWithoutInferenceUrl);
        }
        let cors = match &env.cors_allow_origins {
            Some(s) => CorsPolicy::parse(Some(s.as_str())),
            None => CorsPolicy::parse(None),
        };
        Ok(ServerConfig {
            data_dir,
            addr,
            static_dir,
            mqtt_url: clone_opt(&env.mqtt_url),
            mqtt_port,
            deployment_timeout_secs,
            prometheus_url: clone_opt(&env.prometheus_url),
            orchestrator,
            compose_inference_url,
            cors,
        })
    }
}

} // verus!
