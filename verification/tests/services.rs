use edgeflow::core_model::{InfraSettings, ResourceSettings, TargetHealth};
use edgeflow::inference::{
    artifact_url, latest_deployment_url, normalize_server_url, reply_for, Reply,
};
use edgeflow::orchestrator::{ComposeOrchestrator, Orchestrator};
use edgeflow::server_api::{
    confirm_deployment, state_after_upgrade_call, upgrade_accepted, upgrade_url, ApiError,
    ConfirmOutcome,
};
use edgeflow::server_model::DeploymentState;

#[test]
fn compose_reports_a_synthetic_pod_for_any_target() {
    let o = ComposeOrchestrator::new("http://inference:8080");
    let pods = o.list_running_pods("iris").unwrap();
    assert_eq!(pods.len(), 1);
    assert_eq!(pods[0].pod_id, "iris-0");
    assert_eq!(pods[0].address, "http://inference:8080");
    assert_eq!(pods[0].node.as_deref(), Some("compose"));
    assert_eq!(pods[0].registered_at, 0);
    assert_eq!(pods[0].health, TargetHealth::Healthy);
    assert_eq!(o.synthetic_pod("other").pod_id, "other-0");
}

#[test]
fn compose_management_operations_are_noops() {
    let o = ComposeOrchestrator::new("http://inference:8080");
    let res = ResourceSettings::default();
    let infra = InfraSettings::default();
    assert!(o.create_inference_pod("t", None, &res, &infra).is_ok());
    o.delete_inference_pod("t");
    assert!(!o.patch_inference_pod_resources("t", Some(&res), Some(&infra)));
    assert!(o.get_inference_pod_infra("t").is_none());
    assert!(o.list_all_running_pods().is_none());
    assert_eq!(o.list_nodes(), vec!["compose".to_string()]);
}

#[test]
fn api_errors_map_to_mlflow_codes() {
    let code = |m: &str| ApiError::from_message(m.to_string()).status_and_code();
    assert_eq!(code("deployment not found"), (404, "RESOURCE_DOES_NOT_EXIST"));
    assert_eq!(code("no rows returned by a query"), (404, "RESOURCE_DOES_NOT_EXIST"));
    assert_eq!(code("already exists: registered model 'x'"), (400, "RESOURCE_ALREADY_EXISTS"));
    assert_eq!(code("UNIQUE constraint failed: experiments.name"), (400, "RESOURCE_ALREADY_EXISTS"));
    assert_eq!(code("not found and already exists"), (404, "RESOURCE_DOES_NOT_EXIST"));
    assert_eq!(code("database is locked"), (500, "INTERNAL_ERROR"));
    assert_eq!(code("Not Found"), (500, "INTERNAL_ERROR"));
    assert_eq!(
        code("compose mode: creating pods for other targets is unsupported"),
        (400, "INTERNAL_ERROR")
    );
    assert_eq!(code("unsupported target, and it already exists"), (400, "RESOURCE_ALREADY_EXISTS"));
}

#[test]
fn upgrade_calls() {
    assert!(upgrade_accepted(200));
    assert!(upgrade_accepted(202));
    assert!(upgrade_accepted(299));
    assert!(!upgrade_accepted(300));
    assert!(!upgrade_accepted(404));
    assert_eq!(upgrade_url("http://10.0.0.1:8080"), "http://10.0.0.1:8080/upgrade");
    assert_eq!(state_after_upgrade_call(true, Some(202)), Some(DeploymentState::Deploying));
    assert_eq!(state_after_upgrade_call(false, Some(200)), Some(DeploymentState::Upgrading));
    assert_eq!(state_after_upgrade_call(false, Some(500)), None);
    assert_eq!(state_after_upgrade_call(true, None), None);
}

#[test]
fn confirmations() {
    assert_eq!(
        confirm_deployment(DeploymentState::Upgrading, "healthy").ok(),
        Some(ConfirmOutcome { new_state: DeploymentState::Healthy, supersede_previous: true })
    );
    assert_eq!(
        confirm_deployment(DeploymentState::Deploying, "healthy").ok(),
        Some(ConfirmOutcome { new_state: DeploymentState::Healthy, supersede_previous: false })
    );
    assert_eq!(
        confirm_deployment(DeploymentState::Upgrading, "failed").ok(),
        Some(ConfirmOutcome { new_state: DeploymentState::Failed, supersede_previous: false })
    );
    let e = confirm_deployment(DeploymentState::Pending, "HEALTHY").err().unwrap();
    assert_eq!(e.message, "unknown status: HEALTHY");
}

#[test]
fn inference_routes() {
    assert!(matches!(reply_for("POST", "/infer", true, true), Reply::RunInference));
    assert!(matches!(
        reply_for("POST", "/infer", false, false),
        Reply::Fixed { status: 503, body: "{\"error\":\"no model loaded yet\"}" }
    ));
    assert!(matches!(reply_for("POST", "/upgrade", false, false), Reply::StartUpgrade));
    assert!(matches!(reply_for("GET", "/model", false, true), Reply::ModelInfo));
    assert!(matches!(
        reply_for("GET", "/model", true, false),
        Reply::Fixed { status: 503, body: "{\"error\":\"no model loaded\"}" }
    ));
    assert!(matches!(reply_for("GET", "/health", true, true), Reply::Fixed { status: 200, body: "{\"status\":\"ok\"}" }));
    assert!(matches!(reply_for("GET", "/health", false, true), Reply::Fixed { status: 503, body: "{\"status\":\"loading\"}" }));
    assert!(matches!(reply_for("GET", "/infer", true, true), Reply::Fixed { status: 404, body: "" }));
}

#[test]
fn client_urls() {
    assert_eq!(normalize_server_url("http://edgeflow-server:5000//"), "http://edgeflow-server:5000");
    assert_eq!(normalize_server_url("http://s"), "http://s");
    assert_eq!(
        latest_deployment_url("http://s", "iris"),
        "http://s/api/v1/deployments/latest?target=iris"
    );
    assert_eq!(
        artifact_url("http://s", "abc", "model.onnx"),
        "http://s/api/2.0/mlflow/artifacts/get-artifact?run_id=abc&path=model.onnx"
    );
}
