use std::collections::BTreeMap;

use edgeflow::core_model::{InfraSettings, Placement, ResourceSettings, TargetHealth};
use edgeflow::k8s::{
    next_ready, WatchEvent,
    all_grouped, for_target, health_from_pod, infra_from_deployment,
    inference_deployment_spec, k8s_name, placement_from_affinity, plan_resource_patch,
    pod_to_target_pod, resolve_infra, resolve_resources, AffinitySnapshot, ContainerEnv,
    ContainerResources, DeployEnv, DeploymentSnapshot, EnvSource, PodSnapshot, SettingsEnv,
};

fn no_env() -> SettingsEnv {
    SettingsEnv {
        sessions: None,
        max_concurrent: None,
        cpu_request: None,
        memory_request: None,
        memory_limit: None,
    }
}

#[test]
fn k8s_name_sanitizes_and_prefixes() {
    assert_eq!(k8s_name("Iris_Inference v2"), "edgeflow-inference-iris-inference-v2");
    assert_eq!(k8s_name(""), "edgeflow-inference-");
}

#[test]
fn k8s_name_keeps_44_characters() {
    let long = "a".repeat(60);
    let name = k8s_name(&long);
    assert_eq!(name, format!("edgeflow-inference-{}", "a".repeat(44)));
    assert_eq!(name.len(), 63);
}

#[test]
fn k8s_name_is_ascii() {
    assert_eq!(k8s_name("Ünïcödé"), "edgeflow-inference--n-c-d-");
    let t = format!("{}é", "a".repeat(44));
    assert_eq!(k8s_name(&t), format!("edgeflow-inference-{}", "a".repeat(44)));
    let t = format!("{}é", "a".repeat(43));
    assert_eq!(k8s_name(&t), format!("edgeflow-inference-{}-", "a".repeat(43)));
}

#[test]
fn resolve_resources_applies_env_then_defaults() {
    let r = resolve_resources(&ResourceSettings { sessions: None, max_concurrent: None }, &no_env());
    assert_eq!((r.sessions, r.max_concurrent), (Some(1), Some(1)));
    let mut env = no_env();
    env.sessions = Some("3".into());
    let r = resolve_resources(&ResourceSettings { sessions: None, max_concurrent: None }, &env);
    assert_eq!((r.sessions, r.max_concurrent), (Some(3), Some(3)));
    let r = resolve_resources(&ResourceSettings { sessions: Some(2), max_concurrent: None }, &env);
    assert_eq!((r.sessions, r.max_concurrent), (Some(2), Some(2)));
    env.max_concurrent = Some("x".into());
    let r = resolve_resources(&ResourceSettings { sessions: None, max_concurrent: Some(9) }, &env);
    assert_eq!((r.sessions, r.max_concurrent), (Some(3), Some(9)));
}

#[test]
fn resolve_infra_fills_cpu_and_memory() {
    let mut env = no_env();
    env.memory_limit = Some("1Gi".into());
    let mut infra = InfraSettings::default();
    infra.cpu_request = Some("250m".into());
    infra.replicas = Some(3);
    infra.placement = Some(Placement::Spread);
    let r = resolve_infra(&infra, &env);
    assert_eq!(r.cpu_request.as_deref(), Some("250m"));
    assert_eq!(r.memory_request.as_deref(), Some("256Mi"));
    assert_eq!(r.memory_limit.as_deref(), Some("1Gi"));
    assert_eq!(r.replicas, Some(3));
    assert_eq!(r.placement, Some(Placement::Spread));
}

fn pod(name: Option<&str>, target: Option<&str>, phase: Option<&str>, ready: Option<&str>) -> PodSnapshot {
    PodSnapshot {
        name: name.map(String::from),
        target_label: target.map(String::from),
        phase: phase.map(String::from),
        conditions: ready.map(|s| vec![("Scheduled".to_string(), "True".to_string()), ("Ready".to_string(), s.to_string())]),
        pod_ip: Some("10.1.2.3".into()),
        node_name: Some("node-a".into()),
        created_at_ms: Some(1_700_000_000_000),
    }
}

#[test]
fn health_follows_phase_and_readiness() {
    assert_eq!(health_from_pod(&pod(Some("p"), None, Some("Running"), Some("True"))), TargetHealth::Healthy);
    assert_eq!(health_from_pod(&pod(Some("p"), None, Some("Running"), Some("False"))), TargetHealth::Stale);
    assert_eq!(health_from_pod(&pod(Some("p"), None, Some("Running"), None)), TargetHealth::Stale);
    assert_eq!(health_from_pod(&pod(Some("p"), None, Some("Failed"), Some("True"))), TargetHealth::Unhealthy);
    assert_eq!(health_from_pod(&pod(Some("p"), None, None, None)), TargetHealth::Unhealthy);
    assert_eq!(health_from_pod(&pod(Some("p"), None, Some("Pending"), None)), TargetHealth::Unhealthy);
    assert_eq!(health_from_pod(&pod(Some("p"), None, Some("Succeeded"), Some("True"))), TargetHealth::Unhealthy);
}

#[test]
fn pod_conversion() {
    let tp = pod_to_target_pod(&pod(Some("p-1"), Some("t"), Some("Running"), Some("True"))).unwrap();
    assert_eq!(tp.pod_id, "p-1");
    assert_eq!(tp.address, "http://10.1.2.3:8080");
    assert_eq!(tp.node.as_deref(), Some("node-a"));
    assert_eq!(tp.registered_at, 1_700_000_000_000);
    let mut starting = pod(Some("p-2"), Some("t"), Some("Pending"), None);
    starting.pod_ip = None;
    starting.created_at_ms = None;
    let tp = pod_to_target_pod(&starting).unwrap();
    assert_eq!(tp.address, "");
    assert_eq!(tp.registered_at, 0);
    assert!(pod_to_target_pod(&pod(None, Some("t"), None, None)).is_none());
}

#[test]
fn pods_by_target_and_grouped_agree() {
    let pods = vec![
        pod(Some("a1"), Some("a"), Some("Running"), Some("True")),
        pod(Some("b1"), Some("b"), Some("Running"), Some("True")),
        pod(None, Some("a"), Some("Running"), Some("True")),
        pod(Some("x"), None, Some("Running"), Some("True")),
        pod(Some("a2"), Some("a"), Some("Running"), Some("False")),
        pod(None, Some("c"), Some("Running"), Some("True")),
    ];
    assert!(for_target(false, &pods, "a").is_none());
    assert!(all_grouped(false, &pods).is_none());
    let a: Vec<String> = for_target(true, &pods, "a").unwrap().into_iter().map(|p| p.pod_id).collect();
    assert_eq!(a, vec!["a1", "a2"]);
    assert!(for_target(true, &pods, "c").unwrap().is_empty());
    let groups = all_grouped(true, &pods).unwrap();
    let keys: Vec<&str> = groups.iter().map(|(k, _)| k.as_str()).collect();
    assert_eq!(keys, vec!["a", "b"]);
    for (k, members) in &groups {
        let ids: Vec<&String> = members.iter().map(|p| &p.pod_id).collect();
        let expected: Vec<String> = for_target(true, &pods, k).unwrap().into_iter().map(|p| p.pod_id).collect();
        assert_eq!(ids.into_iter().cloned().collect::<Vec<_>>(), expected);
    }
}

fn deploy_env() -> DeployEnv {
    DeployEnv {
        image: None,
        server_url: None,
        namespace: None,
        image_pull_policy: None,
        mqtt_url: None,
        mqtt_port: Some("1999".into()),
        log_format: None,
        otel_endpoint: None,
        settings: no_env(),
    }
}

#[test]
fn deployment_manifest() {
    let mut infra = InfraSettings::default();
    infra.placement = Some(Placement::Pack);
    let res = ResourceSettings { sessions: Some(2), max_concurrent: None };
    let d = inference_deployment_spec("Iris", Some("node-1"), &res, &infra, &deploy_env());
    assert_eq!(d.name, "edgeflow-inference-iris");
    assert_eq!(d.namespace, "default");
    assert_eq!(
        d.labels,
        vec![
            ("app".to_string(), "edgeflow-inference-iris".to_string()),
            ("edgeflow-target".to_string(), "Iris".to_string())
        ]
    );
    assert_eq!(d.replicas, 1);
    assert_eq!(d.node_name.as_deref(), Some("node-1"));
    assert_eq!(d.placement, Some(Placement::Pack));
    assert_eq!(d.image, "edgeflow-inference:latest");
    assert_eq!(d.image_pull_policy, "IfNotPresent");
    assert_eq!((d.cpu_request.as_str(), d.memory_request.as_str(), d.memory_limit.as_str()), ("100m", "256Mi", "512Mi"));
    let names: Vec<&str> = d.env.iter().map(|e| e.name.as_str()).collect();
    assert_eq!(
        names,
        vec![
            "EDGEFLOW_SERVER",
            "EDGEFLOW_TARGET",
            "EDGEFLOW_INFER_ADDR",
            "EDGEFLOW_SESSIONS",
            "EDGEFLOW_MAX_CONCURRENT_INFER",
            "EDGEFLOW_POD_NAME",
            "EDGEFLOW_POD_IP",
            "EDGEFLOW_NODE_NAME",
            "LOG_FORMAT",
            "EDGEFLOW_MQTT_URL",
            "OTEL_EXPORTER_OTLP_ENDPOINT"
        ]
    );
    let value = |i: usize| match &d.env[i].source {
        EnvSource::Value(v) => v.clone(),
        EnvSource::Field(f) => Some(format!("field:{f}")),
    };
    assert_eq!(value(0).as_deref(), Some("http://edgeflow-server:5000"));
    assert_eq!(value(3).as_deref(), Some("2"));
    assert_eq!(value(4).as_deref(), Some("2"));
    assert_eq!(value(6).as_deref(), Some("field:status.podIP"));
    assert_eq!(value(8).as_deref(), Some("json"));
    assert_eq!(value(9).as_deref(), Some("mqtt://edgeflow-server:1999"));
    assert_eq!(value(10), None);
    assert_eq!(d.readiness_path, "/health");
    assert_eq!(d.readiness_failure_threshold, 300);
}

#[test]
fn deployment_manifest_of_a_long_target() {
    let t = format!("{}ß", "a".repeat(44));
    let d = inference_deployment_spec(&t, None, &ResourceSettings::default(), &InfraSettings::default(), &deploy_env());
    assert_eq!(d.name, format!("edgeflow-inference-{}", "a".repeat(44)));
    assert_eq!(d.labels[1].1, t);
}

#[test]
fn created_deployment_reads_back() {
    let mut infra = InfraSettings::default();
    infra.placement = Some(Placement::Spread);
    infra.memory_limit = Some("1Gi".to_string());
    let mut sel = BTreeMap::new();
    sel.insert("zone".to_string(), "a".to_string());
    infra.node_selector = Some(sel.clone());
    let d = inference_deployment_spec("iris", None, &ResourceSettings::default(), &infra, &deploy_env());
    let snapshot = DeploymentSnapshot {
        has_spec: true,
        replicas: Some(d.replicas),
        has_pod_spec: true,
        first_container: Some(ContainerResources {
            cpu_request: Some(d.cpu_request.clone()),
            memory_request: Some(d.memory_request.clone()),
            memory_limit: Some(d.memory_limit.clone()),
        }),
        node_selector: d.node_selector.clone(),
        affinity: Some(AffinitySnapshot { anti_affinity_terms: Some(1), affinity_terms: None }),
    };
    let back = infra_from_deployment(&snapshot).unwrap();
    assert_eq!(back.cpu_request.as_deref(), Some("100m"));
    assert_eq!(back.memory_request.as_deref(), Some("256Mi"));
    assert_eq!(back.memory_limit.as_deref(), Some("1Gi"));
    assert_eq!(back.replicas, Some(1));
    assert_eq!(back.placement, Some(Placement::Spread));
    assert_eq!(back.node_selector, Some(sel));
}

fn containers() -> Vec<ContainerEnv> {
    vec![
        ContainerEnv { name: "sidecar".into(), env: None },
        ContainerEnv {
            name: "edgeflow-inference".into(),
            env: Some(vec![
                ("EDGEFLOW_SERVER".into(), Some("http://s".into())),
                ("EDGEFLOW_SESSIONS".into(), Some("1".into())),
                ("EDGEFLOW_MAX_CONCURRENT_INFER".into(), None),
            ]),
        },
    ]
}

#[test]
fn resource_patch_plan() {
    let res = ResourceSettings { sessions: Some(4), max_concurrent: None };
    let mut infra = InfraSettings::default();
    infra.replicas = Some(2);
    let mut sel = BTreeMap::new();
    sel.insert("gpu".to_string(), "true".to_string());
    infra.node_selector = Some(sel.clone());
    let p = plan_resource_patch(true, &containers(), Some(&res), Some(&infra), &no_env()).unwrap();
    assert_eq!(p.container, 1);
    assert_eq!(p.requests, Some(("100m".into(), "256Mi".into(), "512Mi".into())));
    assert_eq!(
        p.env,
        Some(vec![
            ("EDGEFLOW_SERVER".to_string(), Some("http://s".to_string())),
            ("EDGEFLOW_SESSIONS".to_string(), Some("4".to_string())),
            ("EDGEFLOW_MAX_CONCURRENT_INFER".to_string(), Some("4".to_string())),
        ])
    );
    assert_eq!(p.replicas, Some(2));
    assert_eq!(p.node_selector, Some(sel));
    assert_eq!(p.affinity, Some(None));

    let p = plan_resource_patch(true, &containers(), Some(&res), None, &no_env()).unwrap();
    assert!(p.requests.is_none() && p.replicas.is_none() && p.affinity.is_none());
    let p = plan_resource_patch(true, &containers(), None, Some(&infra), &no_env()).unwrap();
    assert!(p.env.is_none());
    assert!(plan_resource_patch(false, &containers(), Some(&res), None, &no_env()).is_none());
    assert!(plan_resource_patch(true, &{ let mut c = containers(); c.truncate(1); c }, Some(&res), None, &no_env()).is_none());
}

#[test]
fn infra_read_back() {
    assert_eq!(placement_from_affinity(&None), None);
    let both = AffinitySnapshot { anti_affinity_terms: Some(1), affinity_terms: Some(1) };
    assert_eq!(placement_from_affinity(&Some(both)), Some(Placement::Spread));
    let pack = AffinitySnapshot { anti_affinity_terms: Some(0), affinity_terms: Some(2) };
    assert_eq!(placement_from_affinity(&Some(pack)), Some(Placement::Pack));
    let none = AffinitySnapshot { anti_affinity_terms: None, affinity_terms: Some(0) };
    assert_eq!(placement_from_affinity(&Some(none)), None);

    let snap = DeploymentSnapshot {
        has_spec: true,
        replicas: Some(3),
        has_pod_spec: true,
        first_container: Some(ContainerResources {
            cpu_request: Some("500m".into()),
            memory_request: None,
            memory_limit: Some("1Gi".into()),
        }),
        node_selector: None,
        affinity: None,
    };
    let inf = infra_from_deployment(&snap).unwrap();
    assert_eq!(inf.cpu_request.as_deref(), Some("500m"));
    assert_eq!(inf.memory_request, None);
    assert_eq!(inf.memory_limit.as_deref(), Some("1Gi"));
    assert_eq!(inf.replicas, Some(3));
    assert_eq!(inf.placement, None);
    let no_template = DeploymentSnapshot { has_pod_spec: false, ..snap };
    assert!(infra_from_deployment(&no_template).is_none());
}

#[test]
fn cache_ready_after_initial_listing_and_stays() {
    let events = [
        WatchEvent::Init,
        WatchEvent::InitApply,
        WatchEvent::InitDone,
        WatchEvent::Error,
        WatchEvent::Init,
        WatchEvent::Delete,
        WatchEvent::Apply,
    ];
    let mut ready = false;
    let mut seen = Vec::new();
    for e in events {
        ready = next_ready(ready, e);
        seen.push(ready);
    }
    assert_eq!(seen, vec![false, false, true, true, true, true, true]);
    assert!(!next_ready(false, WatchEvent::Error));
    let pods = vec![pod(Some("a1"), Some("a"), Some("Running"), Some("True"))];
    assert!(for_target(ready, &pods, "a").is_some());
}
