//! The inference pod: its HTTP surface and the URLs it calls on the
//! server.
use vstd::prelude::*;
use crate::text;

verus! {

/// The model a pod has loaded.
#[derive(Debug, Clone)]
pub struct ModelInfo {
    pub run_id: String,
    pub deployment_id: String,
    pub target: String,
    pub loaded_at: String,
}

/// What the pod does with a request.
#[derive(Debug, Clone, Copy)]
pub enum Reply {
    /// Answer with this status and JSON body (an empty body for 404).
    Fixed { status: u16, body: &'static str },
    /// Run the loaded pipeline on the request body.
    RunInference,
    /// Parse the body as an upgrade request and load its run in the
    /// background, answering 202 `{"status":"loading"}` (400 when the body
    /// does not parse).
    StartUpgrade,
    /// Answer with the loaded model's information as JSON.
    ModelInfo,
}

/// How the pod answers `method path`: `POST /infer` runs inference once a
/// model is loaded (503 before); `POST /upgrade` starts loading a run;
/// `GET /model` gives the loaded model (503 before); `GET /health` is 200
/// once a pipeline is loaded and 503 while loading; anything else is 404.
pub open spec fn spec_reply(method: Seq<char>, path: Seq<char>, pipeline_loaded: bool, model_known: bool) -> Reply {
    if method == "POST"@ && path == "/infer"@ {
        if pipeline_loaded {
            Reply::RunInference
        } else {
            Reply::Fixed { status: 503, body: "{\"error\":\"no model loaded yet\"}" }
        }
    } else if method == "POST"@ && path == "/upgrade"@ {
        Reply::StartUpgrade
    } else if method == "GET"@ && path == "/model"@ {
        if model_known {
            Reply::ModelInfo
        } else {
            Reply::Fixed { status: 503, body: "{\"error\":\"no model loaded\"}" }
        }
    } else if method == "GET"@ && path == "/health"@ {
        if pipeline_loaded {
            Reply::Fixed { status: 200, body: "{\"status\":\"ok\"}" }
        } else {
            Reply::Fixed { status: 503, body: "{\"status\":\"loading\"}" }
        }
    } else {
        Reply::Fixed { status: 404, body: "" }
    }
}

/// How the pod answers a request, given whether a pipeline and a model
/// are loaded.
pub fn reply_for(method: &str, path: &str, pipeline_loaded: bool, model_known: bool) -> (r: Reply)
    ensures
        r == spec_reply(method@, path@, pipeline_loaded, model_known),
{
    let m = text::chars_of(method);
    let p = text::chars_of(path);
    if text::chars_eq_str(m.as_slice(), "POST") && text::chars_eq_str(p.as_slice(), "/infer") {
        if pipeline_loaded {
            Reply::RunInference
        } else {
            Reply::Fixed { status: 503, body: "{\"error\":\"no model loaded yet\"}" }
        }
    } else if text::chars_eq_str(m.as_slice(), "POST") && text::chars_eq_str(
        p.as_slice(),
        "/upgrade",
    ) {
        Reply::StartUpgrade
    } else if text::chars_eq_str(m.as_slice(), "GET") && text::chars_eq_str(
        p.as_slice(),
        "/model",
    ) {
        if model_known {
            Reply::ModelInfo
        } else {
            Reply::Fixed { status: 503, body: "{\"error\":\"no model loaded\"}" }
        }
    } else if text::chars_eq_str(m.as_slice(), "GET") && text::chars_eq_str(
        p.as_slice(),
        "/health",
    ) {
        if pipeline_loaded {
            Reply::Fixed { status: 200, body: "{\"status\":\"ok\"}" }
        } else {
            Reply::Fixed { status: 503, body: "{\"status\":\"loading\"}" }
        }
    } else {
        Reply::Fixed { status: 404, body: "" }
    }
}

/// `s` without its trailing `c` characters (`str::trim_end_matches`).
pub open spec fn trim_end_char(s: Seq<char>, c: char) -> Seq<char>
    decreases s.len(),
{
    if s.len() > 0 && s.last() == c {
        trim_end_char(s.drop_last(), c)
    } else {
        s
    }
}

/// The server URL without trailing slashes.
pub fn normalize_server_url(server: &str) -> (r: String)
    ensures
        r@ == trim_end_char(server@, '/'),
{
    let c = text::chars_of(server);
    let mut k: usize = c.len();
    assert(c@.subrange(0, c@.len() as int) =~= c@);
    while k > 0 && c[k - 1] == '/'
        invariant
            0 <= k <= c@.len(),
            trim_end_char(c@.subrange(0, k as int), '/') == trim_end_char(server@, '/'),
        decreases k,
    {
        assert(c@.subrange(0, k as int).drop_last() =~= c@.subrange(0, k - 1));
        k = k - 1;
    }
    let t = text::sub_chars(c.as_slice(), 0, k);
    text::string_from_chars(t.as_slice())
}

/// The URL asking the server for the latest deployment of `target`.
pub fn latest_deployment_url(server: &str, target: &str) -> (r: String)
    ensures
        r@ == server@ + "/api/v1/deployments/latest?target="@ + target@,
{
    let mut v: Vec<char> = Vec::new();
    text::push_str(&mut v, server);
    text::push_str(&mut v, "/api/v1/deployments/latest?target=");
    text::push_str(&mut v, target);
    text::string_from_chars(v.as_slice())
}

/// The URL downloading the artifact `path` of run `run_id`.
pub fn artifact_url(server: &str, run_id: &str, path: &str) -> (r: String)
    ensures
        r@ == server@ + "/api/2.0/mlflow/artifacts/get-artifact?run_id="@ + run_id@ + "&path="@
            + path@,
{
    let mut v: Vec<char> = Vec::new();
    text::push_str(&mut v, server);
    text::push_str(&mut v, "/api/2.0/mlflow/artifacts/get-artifact?run_id=");
    text::push_str(&mut v, run_id);
    text::push_str(&mut v, "&path=");
    text::push_str(&mut v, path);
    text::string_from_chars(v.as_slice())
}

} // verus!
