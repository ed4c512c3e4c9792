//! The decisions of the tracking server's HTTP API: how errors are
//! answered, and how the deployment lifecycle moves on the replies of
//! inference pods.
use vstd::prelude::*;
use crate::text;
use crate::server_model::DeploymentState;

verus! {

/// Whether `p` occurs in `s`.
pub open spec fn contains(s: Seq<char>, p: Seq<char>) -> bool {
    text::find(s, p) is Some
}

fn contains_exec(s: &[char], p: &str) -> (r: bool)
    ensures
        r == contains(s@, p@),
{
    let pc = text::chars_of(p);
    text::find_chars(s, pc.as_slice()).is_some()
}

/// Unified error type that maps to MLflow-style error JSON. It holds the
/// error's message.
pub struct ApiError {
    pub message: String,
}

/// The HTTP status and MLflow error code of an error message: messages
/// saying `not found` or `no rows` are 404 `RESOURCE_DOES_NOT_EXIST` (the
/// MLflow client stops retrying on those); `already exists` or
/// `UNIQUE constraint` are 400 `RESOURCE_ALREADY_EXISTS`; `unsupported` (an
/// orchestrator refusing a request) is a validation failure, HTTP 400 with
/// the code `INTERNAL_ERROR`; anything else is 500 `INTERNAL_ERROR` (a
/// transient failure worth retrying).
pub open spec fn spec_status_and_code(msg: Seq<char>) -> (u16, Seq<char>) {
    if contains(msg, "not found"@) || contains(msg, "no rows"@) {
        (404, "RESOURCE_DOES_NOT_EXIST"@)
    } else if contains(msg, "already exists"@) || contains(msg, "UNIQUE constraint"@) {
        (400, "RESOURCE_ALREADY_EXISTS"@)
    } else if contains(msg, "unsupported"@) {
        (400, "INTERNAL_ERROR"@)
    } else {
        (500, "INTERNAL_ERROR"@)
    }
}

impl ApiError {
    pub fn from_message(message: String) -> (r: ApiError)
        ensures
            r.message == message,
    {
        ApiError { message }
    }

    /// The HTTP status and MLflow error code this error is answered with.
    pub fn status_and_code(&self) -> (r: (u16, &'static str))
        ensures
            (r.0, r.1@) == spec_status_and_code(self.message@),
    {
        let m = text::chars_of(self.message.as_str());
        if contains_exec(m.as_slice(), "not found") || contains_exec(m.as_slice(), "no rows") {
            (404, "RESOURCE_DOES_NOT_EXIST")
        } else if contains_exec(m.as_slice(), "already exists") || contains_exec(
            m.as_slice(),
            "UNIQUE constraint",
        ) {
            (400, "RESOURCE_ALREADY_EXISTS")
        } else if contains_exec(m.as_slice(), "unsupported") {
            (400, "INTERNAL_ERROR")
        } else {
            (500, "INTERNAL_ERROR")
        }
    }
}

// ---------------------------------------------------------------------------
// Deployment lifecycle
// ---------------------------------------------------------------------------

/// Whether an inference pod accepted an `/upgrade` call: any 2xx status
/// (202 included).
pub fn upgrade_accepted(status: u16) -> (r: bool)
    ensures
        r == (200 <= status <= 299 || status == 202),
{
    (200 <= status && status <= 299) || status == 202
}

/// The URL of the `/upgrade` endpoint of a pod at `address`.
pub fn upgrade_url(address: &str) -> (r: String)
    ensures
        r@ == address@ + "/upgrade"@,
{
    let mut v: Vec<char> = Vec::new();
    text::push_str(&mut v, address);
    text::push_str(&mut v, "/upgrade");
    text::string_from_chars(v.as_slice())
}

/// What an upgrade call did to a deployment: `Some(state)` is the state
/// to record, `None` leaves the deployment as it is.
///
/// The call either went to the pod that already serves the target (an
/// upgrade: `first_deploy` is false) or to a newly registered pod with a
/// pending deployment (`first_deploy`). `reply` is the HTTP status of the
/// pod's answer, `None` when the pod could not be reached.
pub fn state_after_upgrade_call(first_deploy: bool, reply: Option<u16>) -> (r: Option<DeploymentState>)
    ensures
        r is Some <==> (reply matches Some(s) && (200 <= s <= 299 || s == 202)),
        r matches Some(st) ==> st == (if first_deploy {
            DeploymentState::Deploying
        } else {
            DeploymentState::Upgrading
        }),
{
    match reply {
        Some(s) => {
            if upgrade_accepted(s) {
                if first_deploy {
                    Some(DeploymentState::Deploying)
                } else {
                    Some(DeploymentState::Upgrading)
                }
            } else {
                None
            }
        },
        None => None,
    }
}

/// What a pod's confirmation does to its deployment.
#[derive(Debug, Clone, Copy, PartialEq, Eq, Structural)]
pub struct ConfirmOutcome {
    /// The state to record.
    pub new_state: DeploymentState,
    /// Whether the target's previous deployments are superseded.
    pub supersede_previous: bool,
}

/// The outcome of a pod confirming its deployment with `status`
/// (`healthy` or `failed`) while the deployment is in `current`: a healthy
/// confirmation marks it `Healthy` and, when it was an upgrade, supersedes
/// the previous deployments; a failed one marks it `Failed`; any other
/// status is refused with `unknown status: <status>`.
pub fn confirm_deployment(current: DeploymentState, status: &str) -> (r: Result<ConfirmOutcome, ApiError>)
    ensures
        status@ == "healthy"@ ==> r == Ok::<ConfirmOutcome, ApiError>(
            ConfirmOutcome {
                new_state: DeploymentState::Healthy,
                supersede_previous: current == DeploymentState::Upgrading,
            },
        ),
        status@ == "failed"@ ==> r == Ok::<ConfirmOutcome, ApiError>(
            ConfirmOutcome { new_state: DeploymentState::Failed, supersede_previous: false },
        ),
        status@ != "healthy"@ && status@ != "failed"@ ==> (r matches Err(e) && e.message@
            == "unknown status: "@ + status@),
{
    proof {
        reveal_strlit("healthy");
        reveal_strlit("failed");
        assert("healthy"@.len() != "failed"@.len());
    }
    let s = text::chars_of(status);
    if text::chars_eq_str(s.as_slice(), "healthy") {
        Ok(
            ConfirmOutcome {
                new_state: DeploymentState::Healthy,
                supersede_previous: current == DeploymentState::Upgrading,
            },
        )
    } else if text::chars_eq_str(s.as_slice(), "failed") {
        Ok(ConfirmOutcome { new_state: DeploymentState::Failed, supersede_previous: false })
    } else {
        let mut v: Vec<char> = Vec::new();
        text::push_str(&mut v, "unknown status: ");
        text::push_all(&mut v, s.as_slice());
        Err(ApiError { message: text::string_from_chars(v.as_slice()) })
    }
}

/// Only a healthy confirmation of an upgrade supersedes earlier
/// deployments; a confirmation never leaves the deployment pending.
pub proof fn lemma_confirm_supersedes_only_upgrades(
    current: DeploymentState,
    status: Seq<char>,
    outcome: ConfirmOutcome,
)
    requires
        (status == "healthy"@ && outcome == ConfirmOutcome {
            new_state: DeploymentState::Healthy,
            supersede_previous: current == DeploymentState::Upgrading,
        }) || (status == "failed"@ && outcome == ConfirmOutcome {
            new_state: DeploymentState::Failed,
            supersede_previous: false,
        }),
    ensures
        outcome.supersede_previous ==> outcome.new_state == DeploymentState::Healthy && current
            == DeploymentState::Upgrading,
        outcome.new_state != DeploymentState::Pending,
{
}

} // verus!
