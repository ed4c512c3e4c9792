//! Core domain types of the inference platform: deployments, targets and
//! their resources, registered models, model versions and runs.
//!
//! They perform no I/O; the server, its clients and the storage backends
//! exchange them.
use vstd::prelude::*;
use std::collections::BTreeMap;
use crate::text;

verus! {

// ---------------------------------------------------------------------------
// Deployments
// ---------------------------------------------------------------------------

#[derive(Debug, Clone, Copy, PartialEq, Eq, Structural)]
pub enum DeploymentState {
    Pending,
    Deploying,
    Upgrading,
    Deployed,
    Failed,
    Superseded,
}

impl DeploymentState {
    /// The stored name of each state.
    pub open spec fn spec_as_str(self) -> Seq<char> {
        match self {
            DeploymentState::Pending => "pending"@,
            DeploymentState::Deploying => "deploying"@,
            DeploymentState::Upgrading => "upgrading"@,
            DeploymentState::Deployed => "deployed"@,
            DeploymentState::Failed => "failed"@,
            DeploymentState::Superseded => "superseded"@,
        }
    }

    /// The state a stored name denotes; any unknown name reads as `Pending`.
    pub open spec fn spec_from_str(s: Seq<char>) -> DeploymentState {
        if s == "deploying"@ {
            DeploymentState::Deploying
        } else if s == "upgrading"@ {
            DeploymentState::Upgrading
        } else if s == "deployed"@ {
            DeploymentState::Deployed
        } else if s == "failed"@ {
            DeploymentState::Failed
        } else if s == "superseded"@ {
            DeploymentState::Superseded
        } else {
            DeploymentState::Pending
        }
    }

    pub fn as_str(&self) -> (r: &'static str)
        ensures
            r@ == self.spec_as_str(),
    {
        match self {
            DeploymentState::Pending => "pending",
            DeploymentState::Deploying => "deploying",
            DeploymentState::Upgrading => "upgrading",
            DeploymentState::Deployed => "deployed",
            DeploymentState::Failed => "failed",
            DeploymentState::Superseded => "superseded",
        }
    }

    pub fn from_str(s: &str) -> (r: DeploymentState)
        ensures
            r == DeploymentState::spec_from_str(s@),
    {
        let c = text::chars_of(s);
        if text::chars_eq_str(c.as_slice(), "deploying") {
            DeploymentState::Deploying
        } else if text::chars_eq_str(c.as_slice(), "upgrading") {
            DeploymentState::Upgrading
        } else if text::chars_eq_str(c.as_slice(), "deployed") {
            DeploymentState::Deployed
        } else if text::chars_eq_str(c.as_slice(), "failed") {
            DeploymentState::Failed
        } else if text::chars_eq_str(c.as_slice(), "superseded") {
            DeploymentState::Superseded
        } else {
            DeploymentState::Pending
        }
    }
}

/// Reading back the stored name of a state gives that state.
pub proof fn lemma_deployment_state_roundtrip(s: DeploymentState)
    ensures
        DeploymentState::spec_from_str(s.spec_as_str()) == s,
{
    reveal_strlit("pending");
    reveal_strlit("deploying");
    reveal_strlit("upgrading");
    reveal_strlit("deployed");
    reveal_strlit("failed");
    reveal_strlit("superseded");
    assert("pending"@.len() == 7);
    assert("deploying"@.len() == 9);
    assert("upgrading"@.len() == 9);
    assert("deployed"@.len() == 8);
    assert("failed"@.len() == 6);
    assert("superseded"@.len() == 10);
    assert("upgrading"@[0] != "deploying"@[0]);
}

/// Distinct states have distinct stored names.
pub proof fn lemma_deployment_state_names_distinct(a: DeploymentState, b: DeploymentState)
    ensures
        a.spec_as_str() == b.spec_as_str() ==> a == b,
{
    lemma_deployment_state_roundtrip(a);
    lemma_deployment_state_roundtrip(b);
}

#[derive(Debug, Clone)]
pub struct Deployment {
    pub deployment_id: String,
    pub target: String,
    pub run_id: String,
    pub model_name: Option<String>,
    pub model_version: Option<String>,
    pub created_at: i64,
    pub state: DeploymentState,
}

/// Edgeflow-owned inference settings, persisted in SQLite.
#[derive(Debug, Clone, PartialEq, Eq, Structural)]
pub struct ResourceSettings {
    /// Number of ORT sessions to keep in the pool (true parallelism).
    /// Defaults to 1 on the inference pod if not set.
    pub sessions: Option<i64>,
    /// Maximum in-flight requests before returning 429.
    /// Defaults to `sessions` on the inference pod if not set.
    pub max_concurrent: Option<i64>,
}

impl Default for ResourceSettings {
    fn default() -> (r: ResourceSettings)
        ensures
            r.sessions is None,
            r.max_concurrent is None,
    {
        ResourceSettings { sessions: None, max_concurrent: None }
    }
}

/// Pod placement strategy. `None` means no affinity rule (scheduler decides freely).
#[derive(Debug, Clone, Copy, PartialEq, Eq, Structural)]
pub enum Placement {
    /// Anti-affinity: prefer scheduling each replica on a different node.
    Spread,
    /// Affinity: prefer scheduling all replicas on the same node.
    Pack,
}

/// k8s-owned infrastructure settings. Never persisted by edgeflow;
/// read from / written to the k8s Deployment spec directly.
#[derive(Debug, Clone)]
pub struct InfraSettings {
    pub cpu_request: Option<String>,
    pub memory_request: Option<String>,
    pub memory_limit: Option<String>,
    /// Number of inference pod replicas in the k8s Deployment.
    pub replicas: Option<i32>,
    /// Pod placement strategy. `None` means no affinity rule (scheduler decides).
    pub placement: Option<Placement>,
    /// k8s nodeSelector labels - scheduler picks any node matching all labels.
    pub node_selector: Option<BTreeMap<String, String>>,
}

impl Default for InfraSettings {
    fn default() -> (r: InfraSettings)
        ensures
            r.cpu_request is None,
            r.memory_request is None,
            r.memory_limit is None,
            r.replicas is None,
            r.placement is None,
            r.node_selector is None,
    {
        InfraSettings {
            cpu_request: None,
            memory_request: None,
            memory_limit: None,
            replicas: None,
            placement: None,
            node_selector: None,
        }
    }
}

#[derive(Debug, Clone, Copy, PartialEq, Eq, Structural)]
pub enum TargetHealth {
    /// k8s status unknown (cluster unreachable or pod not yet scheduled).
    Unknown,
    /// Pod is Running and its readiness probe is passing.
    Healthy,
    /// Pod is Running but not yet ready (starting up or failing probe).
    Stale,
    /// Pod is in Failed or Unknown phase.
    Unhealthy,
}

/// A single running inference pod, populated from k8s pod status.
#[derive(Debug, Clone)]
pub struct TargetPod {
    pub pod_id: String,
    /// `http://{pod_ip}:8080` derived from k8s pod status.
    pub address: String,
    pub node: Option<String>,
    pub registered_at: i64,
    pub health: TargetHealth,
}

/// The mathematical value of a [`TargetPod`].
pub struct TargetPodView {
    pub pod_id: Seq<char>,
    pub address: Seq<char>,
    pub node: Option<Seq<char>>,
    pub registered_at: i64,
    pub health: TargetHealth,
}

impl View for TargetPod {
    type V = TargetPodView;

    open spec fn view(&self) -> TargetPodView {
        TargetPodView {
            pod_id: self.pod_id@,
            address: self.address@,
            node: match self.node {
                Some(n) => Some(n@),
                None => None,
            },
            registered_at: self.registered_at,
            health: self.health,
        }
    }
}

/// The views of a sequence of pods.
pub open spec fn pod_views(v: Seq<TargetPod>) -> Seq<TargetPodView> {
    v.map_values(|p: TargetPod| p@)
}

#[derive(Debug, Clone)]
pub struct Target {
    pub target: String,
    pub registered_at: i64,
    /// Edgeflow-owned settings (sessions, max_concurrent) from SQLite.
    pub resources: ResourceSettings,
    /// k8s-owned infrastructure settings read from the k8s Deployment spec.
    /// None when k8s is unreachable or the Deployment has not been created yet.
    pub infra: Option<InfraSettings>,
    pub current_run_id: Option<String>,
    pub model_loaded_at: Option<String>,
    pub pods: Vec<TargetPod>,
    /// Best health across all pods; Unknown when k8s is unreachable.
    pub health: TargetHealth,
    /// Convenience alias: node of the first pod, if any.
    pub node: Option<String>,
}

// ---------------------------------------------------------------------------
// Errors
// ---------------------------------------------------------------------------

#[derive(Debug, Clone)]
pub enum CoreError {
    NotFound(String),
    AlreadyExists(String),
    InvalidArgument(String),
}

impl CoreError {
    pub open spec fn spec_message(self) -> Seq<char> {
        match self {
            CoreError::NotFound(s) => "not found: "@ + s@,
            CoreError::AlreadyExists(s) => "already exists: "@ + s@,
            CoreError::InvalidArgument(s) => "invalid argument: "@ + s@,
        }
    }

    /// The error's text (`not found: …`, `already exists: …`, `invalid argument: …`).
    pub fn message(&self) -> (r: String)
        ensures
            r@ == self.spec_message(),
    {
        let mut v: Vec<char> = Vec::new();
        match self {
            CoreError::NotFound(s) => {
                text::push_str(&mut v, "not found: ");
                text::push_str(&mut v, s.as_str());
            },
            CoreError::AlreadyExists(s) => {
                text::push_str(&mut v, "already exists: ");
                text::push_str(&mut v, s.as_str());
            },
            CoreError::InvalidArgument(s) => {
                text::push_str(&mut v, "invalid argument: ");
                text::push_str(&mut v, s.as_str());
            },
        }
        text::string_from_chars(v.as_slice())
    }
}

// ---------------------------------------------------------------------------
// Model registry
// ---------------------------------------------------------------------------

#[derive(Debug, Clone)]
pub struct RegisteredModel {
    pub name: String,
    pub creation_time: i64,
    pub last_updated_time: i64,
    pub description: Option<String>,
    pub latest_versions: Vec<ModelVersion>,
}

#[derive(Debug, Clone)]
pub struct ModelVersion {
    pub name: String,
    /// String representation per MLflow spec ("1", "2", …)
    pub version: String,
    pub creation_time: i64,
    pub last_updated_time: i64,
    /// "None" | "Staging" | "Production" | "Archived"
    pub current_stage: String,
    pub description: Option<String>,
    pub source: Option<String>,
    pub run_id: Option<String>,
    /// "READY" | "PENDING_REGISTRATION" | "FAILED_REGISTRATION"
    pub status: String,
}

// ---------------------------------------------------------------------------
// Runs
// ---------------------------------------------------------------------------

#[derive(Debug, Clone)]
pub struct RunInfo {
    pub run_id: String,
    /// Same as `run_id`: the MLflow legacy field.
    pub run_uuid: String,
    pub experiment_id: String,
    pub run_name: Option<String>,
    pub status: RunStatus,
    pub start_time: i64,
    pub end_time: Option<i64>,
    pub artifact_uri: String,
    pub lifecycle_stage: String,
}

#[derive(Debug, Clone)]
pub struct Param {
    pub key: String,
    pub value: String,
}

#[derive(Debug, Clone)]
pub struct RunTag {
    pub key: String,
    pub value: String,
}

#[derive(Debug, Clone, Copy, PartialEq, Eq, Structural)]
pub enum RunStatus {
    Running,
    Scheduled,
    Finished,
    Failed,
    Killed,
}

impl RunStatus {
    /// The stored (and wire) name of each status.
    pub open spec fn spec_as_db_str(self) -> Seq<char> {
        match self {
            RunStatus::Running => "RUNNING"@,
            RunStatus::Scheduled => "SCHEDULED"@,
            RunStatus::Finished => "FINISHED"@,
            RunStatus::Failed => "FAILED"@,
            RunStatus::Killed => "KILLED"@,
        }
    }

    /// The status a stored name denotes; any unknown name reads as `Killed`.
    pub open spec fn spec_from_db_str(s: Seq<char>) -> RunStatus {
        if s == "RUNNING"@ {
            RunStatus::Running
        } else if s == "SCHEDULED"@ {
            RunStatus::Scheduled
        } else if s == "FINISHED"@ {
            RunStatus::Finished
        } else if s == "FAILED"@ {
            RunStatus::Failed
        } else {
            RunStatus::Killed
        }
    }

    /// The name under which a run's status is stored.
    pub fn as_db_str(&self) -> (r: &'static str)
        ensures
            r@ == self.spec_as_db_str(),
    {
        match self {
            RunStatus::Running => "RUNNING",
            RunStatus::Scheduled => "SCHEDULED",
            RunStatus::Finished => "FINISHED",
            RunStatus::Failed => "FAILED",
            RunStatus::Killed => "KILLED",
        }
    }

    /// The status of a stored run.
    pub fn from_db_str(s: &str) -> (r: RunStatus)
        ensures
            r == RunStatus::spec_from_db_str(s@),
    {
        let c = text::chars_of(s);
        if text::chars_eq_str(c.as_slice(), "RUNNING") {
            RunStatus::Running
        } else if text::chars_eq_str(c.as_slice(), "SCHEDULED") {
            RunStatus::Scheduled
        } else if text::chars_eq_str(c.as_slice(), "FINISHED") {
            RunStatus::Finished
        } else if text::chars_eq_str(c.as_slice(), "FAILED") {
            RunStatus::Failed
        } else {
            RunStatus::Killed
        }
    }
}

/// A stored run status reads back as the status that was stored.
pub proof fn lemma_run_status_roundtrip(s: RunStatus)
    ensures
        RunStatus::spec_from_db_str(s.spec_as_db_str()) == s,
{
    reveal_strlit("RUNNING");
    reveal_strlit("SCHEDULED");
    reveal_strlit("FINISHED");
    reveal_strlit("FAILED");
    reveal_strlit("KILLED");
    assert("RUNNING"@.len() == 7);
    assert("SCHEDULED"@.len() == 9);
    assert("FINISHED"@.len() == 8);
    assert("FAILED"@.len() == 6);
    assert("KILLED"@.len() == 6);
    assert("KILLED"@[0] != "FAILED"@[0]);
}

} // verus!
