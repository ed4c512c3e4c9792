use edgeflow::core_model::{self, CoreError, InfraSettings, ResourceSettings, RunStatus};
use edgeflow::server_model::{self, LifecycleStage};

const CORE_STATES: [core_model::DeploymentState; 6] = [
    core_model::DeploymentState::Pending,
    core_model::DeploymentState::Deploying,
    core_model::DeploymentState::Upgrading,
    core_model::DeploymentState::Deployed,
    core_model::DeploymentState::Failed,
    core_model::DeploymentState::Superseded,
];

const SERVER_STATES: [server_model::DeploymentState; 6] = [
    server_model::DeploymentState::Pending,
    server_model::DeploymentState::Deploying,
    server_model::DeploymentState::Upgrading,
    server_model::DeploymentState::Healthy,
    server_model::DeploymentState::Failed,
    server_model::DeploymentState::Superseded,
];

#[test]
fn core_deployment_state_names_roundtrip() {
    for s in CORE_STATES {
        assert_eq!(core_model::DeploymentState::from_str(s.as_str()), s);
    }
    assert_eq!(core_model::DeploymentState::Deployed.as_str(), "deployed");
    assert_eq!(core_model::DeploymentState::from_str("healthy"), core_model::DeploymentState::Pending);
    assert_eq!(core_model::DeploymentState::from_str("DEPLOYED"), core_model::DeploymentState::Pending);
}

#[test]
fn server_deployment_state_names_roundtrip() {
    for s in SERVER_STATES {
        assert_eq!(server_model::DeploymentState::from_str(s.as_str()), s);
    }
    assert_eq!(server_model::DeploymentState::Healthy.as_str(), "healthy");
    assert_eq!(server_model::DeploymentState::from_str("deployed"), server_model::DeploymentState::Pending);
}

#[test]
fn run_status_names_roundtrip() {
    for s in [RunStatus::Running, RunStatus::Scheduled, RunStatus::Finished, RunStatus::Failed, RunStatus::Killed] {
        assert_eq!(RunStatus::from_db_str(s.as_db_str()), s);
    }
    assert_eq!(RunStatus::from_db_str("running"), RunStatus::Killed);
    assert_eq!(RunStatus::Finished.as_db_str(), "FINISHED");
}

#[test]
fn lifecycle_stage_names() {
    assert_eq!(LifecycleStage::from_db_str("active"), LifecycleStage::Active);
    assert_eq!(LifecycleStage::from_db_str("deleted"), LifecycleStage::Deleted);
    assert_eq!(LifecycleStage::from_db_str("ACTIVE"), LifecycleStage::Deleted);
    assert_eq!(LifecycleStage::Deleted.as_db_str(), "deleted");
    assert_eq!(LifecycleStage::listing_stage(None), LifecycleStage::Active);
    assert_eq!(LifecycleStage::listing_stage(Some(LifecycleStage::Deleted)), LifecycleStage::Deleted);
}

#[test]
fn core_error_messages() {
    assert_eq!(CoreError::NotFound("run x".into()).message(), "not found: run x");
    assert_eq!(CoreError::AlreadyExists("m".into()).message(), "already exists: m");
    assert_eq!(
        server_model::CoreError::InvalidArgument("bad".into()).message(),
        "invalid argument: bad"
    );
}

#[test]
fn settings_default_to_unset() {
    let r = ResourceSettings::default();
    assert_eq!(r.sessions, None);
    assert_eq!(r.max_concurrent, None);
    let i = InfraSettings::default();
    assert!(i.cpu_request.is_none() && i.replicas.is_none() && i.node_selector.is_none());
}
