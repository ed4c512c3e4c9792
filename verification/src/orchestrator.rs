//! Orchestrator abstraction over the inference-pod runtime.
//!
//! edgeflow runs inference pods on different substrates: a full k8s cluster
//! for production / multi-target deployments, and a single-process docker
//! compose stack for the local demo. Both expose the same management
//! operations behind the [`Orchestrator`] trait so the API handlers in the
//! server are runtime-agnostic.
//!
//! The compose backend is intentionally barebones: it only knows about a
//! single pre-provisioned inference container. Operations that don't make
//! sense in that model (creating new targets, patching resources, etc.)
//! are no-ops.
use vstd::prelude::*;
use crate::text;
use crate::core_model::{InfraSettings, ResourceSettings, TargetHealth, TargetPod, TargetPodView};

verus! {

/// Why an orchestrator cannot satisfy a request. Messages containing the
/// word `unsupported` are answered as a validation failure (HTTP 400).
pub struct OrchestratorError {
    pub message: String,
}

pub trait Orchestrator {
    /// Provision an inference pod for `target`. May be a no-op when the
    /// orchestrator uses pre-provisioned pods (compose mode).
    fn create_inference_pod(
        &self,
        target: &str,
        node: Option<&str>,
        resources: &ResourceSettings,
        infra: &InfraSettings,
    ) -> Result<(), OrchestratorError>;

    /// Tear down the inference pod for `target`.
    fn delete_inference_pod(&self, target: &str);

    /// Update resource requests/limits and replica count. Returns `true` when
    /// the patch was accepted, `false` when the orchestrator can't apply it.
    fn patch_inference_pod_resources(
        &self,
        target: &str,
        resources: Option<&ResourceSettings>,
        infra: Option<&InfraSettings>,
    ) -> bool;

    /// Read current infra settings from the running deployment, or `None` when
    /// the orchestrator can't introspect them.
    fn get_inference_pod_infra(&self, target: &str) -> Option<InfraSettings>;

    /// List running pods for `target`. `None` indicates the runtime is
    /// unreachable; `Some(vec![])` means "reachable, no pods".
    fn list_running_pods(&self, target: &str) -> Option<Vec<TargetPod>>;

    /// List running pods for every target the orchestrator manages, grouped
    /// by target.
    ///
    /// Returns `None` when the orchestrator cannot enumerate targets on its
    /// own (e.g. compose mode, where targets are a store-level concept). When
    /// `None`, callers should fall back to iterating `list_running_pods` over
    /// the store's known targets.
    fn list_all_running_pods(&self) -> Option<Vec<(String, Vec<TargetPod>)>>;

    /// List node names. For non-clustered orchestrators this is a single
    /// synthetic name (e.g. `"compose"`).
    fn list_nodes(&self) -> Vec<String>;
}

/// Demo orchestrator for the docker compose path: one pre-provisioned
/// inference container, whatever the target.
pub struct ComposeOrchestrator {
    address: String,
}

impl ComposeOrchestrator {
    /// The URL of the inference container.
    pub closed spec fn spec_address(&self) -> Seq<char> {
        self.address@
    }

    /// The pod that compose reports for `target`: `{target}-0` at the
    /// container's address, on node `compose`, healthy, registered at 0.
    pub open spec fn spec_synthetic_pod(&self, target: Seq<char>) -> TargetPodView {
        TargetPodView {
            pod_id: target + "-0"@,
            address: self.spec_address(),
            node: Some("compose"@),
            registered_at: 0,
            health: TargetHealth::Healthy,
        }
    }

    /// `address` is the URL the server uses to reach the pre-provisioned
    /// inference container (e.g. `http://inference:8080`).
    pub fn new(address: &str) -> (r: ComposeOrchestrator)
        ensures
            r.spec_address() == address@,
    {
        ComposeOrchestrator { address: text::owned(address) }
    }

    /// Build a synthetic `TargetPod` for the given target name.
    pub fn synthetic_pod(&self, target: &str) -> (r: TargetPod)
        ensures
            r@ == self.spec_synthetic_pod(target@),
    {
        let mut id: Vec<char> = Vec::new();
        text::push_str(&mut id, target);
        text::push_str(&mut id, "-0");
        TargetPod {
            pod_id: text::string_from_chars(id.as_slice()),
            address: self.address.clone(),
            node: Some(text::owned("compose")),
            registered_at: 0,
            health: TargetHealth::Healthy,
        }
    }
}

impl Orchestrator for ComposeOrchestrator {
    /// The container is already running and accepts any target via a
    /// wildcard MQTT subscription: nothing to provision.
    fn create_inference_pod(
        &self,
        _target: &str,
        _node: Option<&str>,
        _resources: &ResourceSettings,
        _infra: &InfraSettings,
    ) -> (r: Result<(), OrchestratorError>)
        ensures
            r is Ok,
    {
        Ok(())
    }

    /// Compose cannot tear down inference pods at runtime; the container
    /// is stopped with `docker compose down` instead.
    fn delete_inference_pod(&self, _target: &str) {
    }

    /// Compose cannot patch pod resources at runtime (edit
    /// docker-compose.yaml and restart): the patch is never accepted.
    fn patch_inference_pod_resources(
        &self,
        _target: &str,
        _resources: Option<&ResourceSettings>,
        _infra: Option<&InfraSettings>,
    ) -> (r: bool)
        ensures
            !r,
    {
        false
    }

    fn get_inference_pod_infra(&self, _target: &str) -> (r: Option<InfraSettings>)
        ensures
            r is None,
    {
        None
    }

    /// A synthetic pod for any target the caller asks about: the single
    /// compose pod serves all targets.
    fn list_running_pods(&self, target: &str) -> (r: Option<Vec<TargetPod>>)
        ensures
            r matches Some(v) && v@.len() == 1 && v@[0]@ == self.spec_synthetic_pod(target@),
    {
        let mut v: Vec<TargetPod> = Vec::new();
        v.push(self.synthetic_pod(target));
        Some(v)
    }

    /// Compose doesn't know which targets exist - that's the store's job.
    fn list_all_running_pods(&self) -> (r: Option<Vec<(String, Vec<TargetPod>)>>)
        ensures
            r is None,
    {
        None
    }

    fn list_nodes(&self) -> (r: Vec<String>)
        ensures
            r@.len() == 1,
            r@[0]@ == "compose"@,
    {
        let mut v: Vec<String> = Vec::new();
        v.push(text::owned("compose"));
        v
    }
}

} // verus!
