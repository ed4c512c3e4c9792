//! Domain types of the tracking server: experiments, deployments whose pods
//! confirm themselves `healthy`, and targets registered by inference pods.
use vstd::prelude::*;
use crate::text;

verus! {

#[derive(Debug, Clone, Copy, PartialEq, Eq, Structural)]
pub enum DeploymentState {
    Pending,
    Deploying,
    Upgrading,
    Healthy,
    Failed,
    Superseded,
}

impl DeploymentState {
    /// The stored name of each state.
    pub open spec fn spec_as_str(self) -> Seq<char> {
        match self {
            DeploymentState::Pending => "pending"@,
            DeploymentState::Deploying => "deploying"@,
            DeploymentState::Upgrading => "upgrading"@,
            DeploymentState::Healthy => "healthy"@,
            DeploymentState::Failed => "failed"@,
            DeploymentState::Superseded => "superseded"@,
        }
    }

    /// The state a stored name denotes; any unknown name reads as `Pending`.
    pub open spec fn spec_from_str(s: Seq<char>) -> DeploymentState {
        if s == "deploying"@ {
            DeploymentState::Deploying
        } else if s == "upgrading"@ {
            DeploymentState::Upgrading
        } else if s == "healthy"@ {
            DeploymentState::Healthy
        } else if s == "failed"@ {
            DeploymentState::Failed
        } else if s == "superseded"@ {
            DeploymentState::Superseded
        } else {
            DeploymentState::Pending
        }
    }

    pub fn as_str(&self) -> (r: &'static str)
        ensures
            r@ == self.spec_as_str(),
    {
        match self {
            DeploymentState::Pending => "pending",
            DeploymentState::Deploying => "deploying",
            DeploymentState::Upgrading => "upgrading",
            DeploymentState::Healthy => "healthy",
            DeploymentState::Failed => "failed",
            DeploymentState::Superseded => "superseded",
        }
    }

    pub fn from_str(s: &str) -> (r: DeploymentState)
        ensures
            r == DeploymentState::spec_from_str(s@),
    {
        let c = text::chars_of(s);
        if text::chars_eq_str(c.as_slice(), "deploying") {
            DeploymentState::Deploying
        } else if text::chars_eq_str(c.as_slice(), "upgrading") {
            DeploymentState::Upgrading
        } else if text::chars_eq_str(c.as_slice(), "healthy") {
            DeploymentState::Healthy
        } else if text::chars_eq_str(c.as_slice(), "failed") {
            DeploymentState::Failed
        } else if text::chars_eq_str(c.as_slice(), "superseded") {
            DeploymentState::Superseded
        } else {
            DeploymentState::Pending
        }
    }
}

/// Reading back the stored name of a state gives that state.
pub proof fn lemma_deployment_state_roundtrip(s: DeploymentState)
    ensures
        DeploymentState::spec_from_str(s.spec_as_str()) == s,
{
    reveal_strlit("pending");
    reveal_strlit("deploying");
    reveal_strlit("upgrading");
    reveal_strlit("healthy");
    reveal_strlit("failed");
    reveal_strlit("superseded");
    assert("pending"@.len() == 7);
    assert("deploying"@.len() == 9);
    assert("upgrading"@.len() == 9);
    assert("healthy"@.len() == 7);
    assert("failed"@.len() == 6);
    assert("superseded"@.len() == 10);
    assert("upgrading"@[0] != "deploying"@[0]);
    assert("healthy"@[0] != "pending"@[0]);
}

#[derive(Debug, Clone)]
pub struct Deployment {
    pub deployment_id: String,
    pub target: String,
    pub run_id: String,
    pub created_at: i64,
    pub state: DeploymentState,
}

#[derive(Debug, Clone)]
pub struct Target {
    pub target: String,
    pub address: String,
    pub pod_name: Option<String>,
    pub registered_at: i64,
}

#[derive(Debug, Clone)]
pub struct Experiment {
    pub experiment_id: String,
    pub name: String,
    pub artifact_location: String,
    pub lifecycle_stage: LifecycleStage,
    pub creation_time: i64,
    pub last_update_time: i64,
    pub tags: Vec<ExperimentTag>,
}

#[derive(Debug, Clone)]
pub struct ExperimentTag {
    pub key: String,
    pub value: String,
}

#[derive(Debug, Clone, Copy, PartialEq, Eq, Structural)]
pub enum LifecycleStage {
    Active,
    Deleted,
}

impl LifecycleStage {
    /// The stored name of each stage.
    pub open spec fn spec_as_db_str(self) -> Seq<char> {
        match self {
            LifecycleStage::Active => "active"@,
            LifecycleStage::Deleted => "deleted"@,
        }
    }

    /// The name under which a stage is stored.
    pub fn as_db_str(&self) -> (r: &'static str)
        ensures
            r@ == self.spec_as_db_str(),
    {
        match self {
            LifecycleStage::Active => "active",
            LifecycleStage::Deleted => "deleted",
        }
    }

    /// The stage of a stored experiment: `Active` exactly for `active`.
    pub fn from_db_str(s: &str) -> (r: LifecycleStage)
        ensures
            (r == LifecycleStage::Active) == (s@ == "active"@),
    {
        let c = text::chars_of(s);
        if text::chars_eq_str(c.as_slice(), "active") {
            LifecycleStage::Active
        } else {
            LifecycleStage::Deleted
        }
    }

    /// The stage to list when a listing asks for `stage`: deleted
    /// experiments only when asked for explicitly, active ones otherwise.
    pub fn listing_stage(stage: Option<LifecycleStage>) -> (r: LifecycleStage)
        ensures
            r == (if stage == Some(LifecycleStage::Deleted) {
                LifecycleStage::Deleted
            } else {
                LifecycleStage::Active
            }),
    {
        match stage {
            Some(LifecycleStage::Deleted) => LifecycleStage::Deleted,
            _ => LifecycleStage::Active,
        }
    }
}

/// A stored stage reads back as the stage that was stored.
pub proof fn lemma_lifecycle_stage_roundtrip(s: LifecycleStage)
    ensures
        (s.spec_as_db_str() == "active"@) == (s == LifecycleStage::Active),
{
    reveal_strlit("active");
    reveal_strlit("deleted");
    assert("active"@.len() != "deleted"@.len());
}

#[derive(Debug, Clone)]
pub enum CoreError {
    NotFound(String),
    AlreadyExists(String),
    InvalidArgument(String),
}

impl CoreError {
    pub open spec fn spec_message(self) -> Seq<char> {
        match self {
            CoreError::NotFound(s) => "not found: "@ + s@,
            CoreError::AlreadyExists(s) => "already exists: "@ + s@,
            CoreError::InvalidArgument(s) => "invalid argument: "@ + s@,
        }
    }

    /// The error's text (`not found: …`, `already exists: …`, `invalid argument: …`).
    pub fn message(&self) -> (r: String)
        ensures
            r@ == self.spec_message(),
    {
        let mut v: Vec<char> = Vec::new();
        match self {
            CoreError::NotFound(s) => {
                text::push_str(&mut v, "not found: ");
                text::push_str(&mut v, s.as_str());
            },
            CoreError::AlreadyExists(s) => {
                text::push_str(&mut v, "already exists: ");
                text::push_str(&mut v, s.as_str());
            },
            CoreError::InvalidArgument(s) => {
                text::push_str(&mut v, "invalid argument: ");
                text::push_str(&mut v, s.as_str());
            },
        }
        text::string_from_chars(v.as_slice())
    }
}

} // verus!
