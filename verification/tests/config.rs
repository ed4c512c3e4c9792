use edgeflow::config::{
    ConfigError, CorsPolicy, Environment, InferenceConfig, InferenceEnv, OrchestratorKind,
    ServerConfig, ServerEnv,
};

#[test]
fn cors_unset_is_disabled() {
    assert_eq!(CorsPolicy::parse(None), CorsPolicy::Disabled);
}

#[test]
fn cors_empty_is_disabled() {
    assert_eq!(CorsPolicy::parse(Some("")), CorsPolicy::Disabled);
    assert_eq!(CorsPolicy::parse(Some("   ")), CorsPolicy::Disabled);
}

#[test]
fn cors_wildcard_is_any() {
    assert_eq!(CorsPolicy::parse(Some("*")), CorsPolicy::Any);
    assert_eq!(CorsPolicy::parse(Some("  *  ")), CorsPolicy::Any);
}

#[test]
fn cors_single_origin_is_allowlist() {
    assert_eq!(
        CorsPolicy::parse(Some("https://example.com")),
        CorsPolicy::Allowlist(vec!["https://example.com".into()]),
    );
}

#[test]
fn cors_csv_origins_are_trimmed() {
    assert_eq!(
        CorsPolicy::parse(Some("https://a.com, https://b.com ,https://c.com")),
        CorsPolicy::Allowlist(vec![
            "https://a.com".into(),
            "https://b.com".into(),
            "https://c.com".into(),
        ]),
    );
}

#[test]
fn cors_empty_csv_entries_are_dropped() {
    assert_eq!(
        CorsPolicy::parse(Some("https://a.com,,https://b.com,")),
        CorsPolicy::Allowlist(vec!["https://a.com".into(), "https://b.com".into()]),
    );
}

#[test]
fn cors_wildcard_inside_csv_is_treated_as_origin() {
    assert_eq!(
        CorsPolicy::parse(Some("*,https://a.com")),
        CorsPolicy::Allowlist(vec!["*".into(), "https://a.com".into()]),
    );
}

#[test]
fn cors_unicode_whitespace_is_trimmed() {
    assert_eq!(CorsPolicy::parse(Some("\u{3000}\t\n")), CorsPolicy::Disabled);
    assert_eq!(
        CorsPolicy::parse(Some("\u{a0}https://a.com\u{2003}")),
        CorsPolicy::Allowlist(vec!["https://a.com".into()]),
    );
}

#[test]
fn environment_production_ignores_ascii_case() {
    assert!(Environment::from_env_value(Some("PRODUCTION")).is_production());
    assert!(Environment::from_env_value(Some("Production")).is_production());
    assert!(!Environment::from_env_value(Some("prod")).is_production());
    assert!(!Environment::from_env_value(Some(" production")).is_production());
    assert!(!Environment::from_env_value(None).is_production());
}

fn inference_env() -> InferenceEnv {
    InferenceEnv {
        server: Some("http://edgeflow-server:5000".into()),
        target: Some("iris-inference".into()),
        infer_addr: None,
        pod_name: None,
        hostname: None,
        pod_ip: None,
        sessions: None,
        max_concurrent: None,
        node_name: None,
        mqtt_url: None,
        dynamic_topic: None,
    }
}

#[test]
fn inference_config_defaults() {
    let c = InferenceConfig::from_env_values(&inference_env()).ok().unwrap();
    assert_eq!(c.server_url, "http://edgeflow-server:5000");
    assert_eq!(c.target, "iris-inference");
    assert_eq!(c.infer_addr, "0.0.0.0:8080");
    assert_eq!(c.self_address, "http://127.0.0.1:8080");
    assert_eq!(c.pod_id, "iris-inference");
    assert_eq!(c.sessions, 1);
    assert_eq!(c.max_concurrent, 1);
    assert_eq!(c.node_name, None);
    assert!(!c.dynamic_topic);
}

#[test]
fn inference_config_overrides() {
    let mut env = inference_env();
    env.infer_addr = Some("10.0.0.5:9090".into());
    env.hostname = Some("pod-host".into());
    env.sessions = Some("4".into());
    env.dynamic_topic = Some("TRUE".into());
    let c = InferenceConfig::from_env_values(&env).ok().unwrap();
    assert_eq!(c.self_address, "http://10.0.0.5:9090");
    assert_eq!(c.pod_id, "pod-host");
    assert_eq!(c.sessions, 4);
    assert_eq!(c.max_concurrent, 4);
    assert!(c.dynamic_topic);

    env.pod_name = Some("pod-name".into());
    env.pod_ip = Some("192.168.1.7".into());
    env.max_concurrent = Some("+8".into());
    env.sessions = Some("-2".into());
    env.dynamic_topic = Some("1".into());
    let c = InferenceConfig::from_env_values(&env).ok().unwrap();
    assert_eq!(c.self_address, "http://192.168.1.7:9090");
    assert_eq!(c.pod_id, "pod-name");
    assert_eq!(c.sessions, 1);
    assert_eq!(c.max_concurrent, 8);
    assert!(c.dynamic_topic);
}

#[test]
fn inference_config_requires_server_then_target() {
    let mut env = inference_env();
    env.target = None;
    assert!(matches!(InferenceConfig::from_env_values(&env), Err(ConfigError::MissingTarget)));
    env.server = None;
    assert!(matches!(InferenceConfig::from_env_values(&env), Err(ConfigError::MissingServer)));
    assert_eq!(
        ConfigError::MissingServer.message(),
        "EDGEFLOW_SERVER is required (e.g. http://edgeflow-server:5000)"
    );
}

fn server_env() -> ServerEnv {
    ServerEnv {
        data_dir: None,
        addr: None,
        static_dir: None,
        mqtt_url: None,
        mqtt_port: None,
        deployment_timeout_secs: None,
        prometheus_url: None,
        orchestrator: None,
        compose_inference_url: None,
        cors_allow_origins: None,
    }
}

#[test]
fn server_config_defaults() {
    let c = ServerConfig::from_env_values(&server_env()).ok().unwrap();
    assert_eq!(c.data_dir, "./data");
    assert_eq!(c.addr, "0.0.0.0:5000");
    assert_eq!(c.static_dir, "./static");
    assert_eq!(c.mqtt_port, 1883);
    assert_eq!(c.deployment_timeout_secs, 300);
    assert_eq!(c.orchestrator, OrchestratorKind::K8s);
    assert_eq!(c.cors, CorsPolicy::Disabled);
}

#[test]
fn server_config_parses_numbers() {
    let mut env = server_env();
    env.mqtt_port = Some("65535".into());
    env.deployment_timeout_secs = Some("-15".into());
    let c = ServerConfig::from_env_values(&env).ok().unwrap();
    assert_eq!(c.mqtt_port, 65535);
    assert_eq!(c.deployment_timeout_secs, -15);
    env.mqtt_port = Some("65536".into());
    env.deployment_timeout_secs = Some("9223372036854775808".into());
    let c = ServerConfig::from_env_values(&env).ok().unwrap();
    assert_eq!(c.mqtt_port, 1883);
    assert_eq!(c.deployment_timeout_secs, 300);
    env.deployment_timeout_secs = Some("-9223372036854775808".into());
    let c = ServerConfig::from_env_values(&env).ok().unwrap();
    assert_eq!(c.deployment_timeout_secs, i64::MIN);
}

#[test]
fn server_config_compose_needs_inference_url() {
    let mut env = server_env();
    env.orchestrator = Some("compose".into());
    assert!(matches!(
        ServerConfig::from_env_values(&env),
        Err(ConfigError::ComposeWithoutInferenceUrl)
    ));
    env.compose_inference_url = Some("http://inference:8080".into());
    env.cors_allow_origins = Some("*".into());
    let c = ServerConfig::from_env_values(&env).ok().unwrap();
    assert_eq!(c.orchestrator, OrchestratorKind::Compose);
    assert_eq!(c.cors, CorsPolicy::Any);
    env.orchestrator = Some("Compose".into());
    let c = ServerConfig::from_env_values(&env).ok().unwrap();
    assert_eq!(c.orchestrator, OrchestratorKind::K8s);
}
