//! The control surface's logic: request validation, queueing, store
//! access, and response shaping.  The HTTP plumbing around it only
//! decodes requests into these calls and encodes what they return.

use crate::ids::{format_id, id_str, parse_id, parse_id_spec};
use crate::queue::{BuildJob, JobQueue, QueueError};
use crate::status::{BuildStatus, DeployStatus};
use crate::store::{BuildRecord, DeploymentRecord, Store};
use crate::text::{dec_str, dec_string};
use vstd::prelude::*;

verus! {

/// An error returned by the API surface.
#[derive(Debug)]
pub enum ApiError {
    /// No such record: served as 404.
    NotFound,
    /// A malformed request: served as 400 with the message.
    BadRequest(String),
    /// An internal failure: served as 500 with an opaque body.
    Internal(String),
    /// The build queue is full: served as 503 with the message.
    ServiceUnavailable(String),
}

impl ApiError {
    /// The HTTP status code this error is served with.
    pub fn status_code(&self) -> (r: u16)
        ensures
            r == match self {
                ApiError::NotFound => 404u16,
                ApiError::BadRequest(_) => 400u16,
                ApiError::Internal(_) => 500u16,
                ApiError::ServiceUnavailable(_) => 503u16,
            },
    {
        match self {
            ApiError::NotFound => 404,
            ApiError::BadRequest(_) => 400,
            ApiError::Internal(_) => 500,
            ApiError::ServiceUnavailable(_) => 503,
        }
    }

    /// The body message this error is served with.  Internal details
    /// are never surfaced: internal errors all read the same.
    pub fn body_message(&self) -> (r: String)
        ensures
            r@ == match self {
                ApiError::NotFound => "not found"@,
                ApiError::BadRequest(m) => m@,
                ApiError::Internal(_) => "internal server error"@,
                ApiError::ServiceUnavailable(m) => m@,
            },
    {
        match self {
            ApiError::NotFound => "not found".to_owned(),
            ApiError::BadRequest(m) => m.clone(),
            ApiError::Internal(_) => "internal server error".to_owned(),
            ApiError::ServiceUnavailable(m) => m.clone(),
        }
    }
}

/// The error body served with every failed request.
#[derive(Debug, Clone)]
pub struct ErrorResponse {
    pub error: String,
}

/// A build as served to clients.
#[derive(Debug, Clone)]
pub struct BuildResponse {
    pub id: String,
    pub status: String,
    pub created_at: String,
    pub updated_at: String,
}

/// What a served build holds: the canonical id text, the lowercase
/// status token, and decimal timestamps.
pub open spec fn build_response_matches(resp: BuildResponse, rec: BuildRecord) -> bool {
    &&& resp.id@ == id_str(rec.id)
    &&& resp.status@ == rec.status.spec_str()
    &&& resp.created_at@ == dec_str(rec.created_at as nat)
    &&& resp.updated_at@ == dec_str(rec.updated_at as nat)
}

impl BuildResponse {
    /// Shapes a build record for serving.
    pub fn from_record(rec: &BuildRecord) -> (r: BuildResponse)
        ensures
            build_response_matches(r, *rec),
    {
        BuildResponse {
            id: format_id(rec.id),
            status: rec.status.as_str().to_owned(),
            created_at: dec_string(rec.created_at),
            updated_at: dec_string(rec.updated_at),
        }
    }
}

/// The body answering a build submission.
#[derive(Debug, Clone)]
pub struct CreateBuildResponse {
    pub build_id: String,
    pub status: String,
}

/// A deployment as served to clients.
#[derive(Debug, Clone)]
pub struct DeploymentResponse {
    pub id: String,
    pub build_id: String,
    pub app: String,
    pub image: String,
    pub status: String,
    pub container_id: Option<String>,
    pub container_name: Option<String>,
    pub address: Option<String>,
    pub created_at: String,
    pub updated_at: String,
}

/// What a served deployment holds.
pub open spec fn deployment_response_matches(resp: DeploymentResponse, rec: DeploymentRecord) -> bool {
    &&& resp.id@ == id_str(rec.id)
    &&& resp.build_id@ == id_str(rec.build_id)
    &&& resp.app == rec.app
    &&& resp.image == rec.image
    &&& resp.status@ == rec.status.spec_str()
    &&& resp.container_id == rec.container_id
    &&& resp.container_name == rec.container_name
    &&& resp.address == rec.address
    &&& resp.created_at@ == dec_str(rec.created_at as nat)
    &&& resp.updated_at@ == dec_str(rec.updated_at as nat)
}

impl DeploymentResponse {
    /// Shapes a deployment record for serving.
    pub fn from_record(rec: &DeploymentRecord) -> (r: DeploymentResponse)
        ensures
            deployment_response_matches(r, *rec),
    {
        DeploymentResponse {
            id: format_id(rec.id),
            build_id: format_id(rec.build_id),
            app: rec.app.clone(),
            image: rec.image.clone(),
            status: rec.status.as_str().to_owned(),
            container_id: match &rec.container_id {
                Some(s) => Some(s.clone()),
                None => None,
            },
            container_name: match &rec.container_name {
                Some(s) => Some(s.clone()),
                None => None,
            },
            address: match &rec.address {
                Some(s) => Some(s.clone()),
                None => None,
            },
            created_at: dec_string(rec.created_at),
            updated_at: dec_string(rec.updated_at),
        }
    }
}

/// Accepts a submitted build whose archive the caller has already
/// persisted under `build_id`: the job is enqueued, then the build is
/// recorded as Queued.  A full queue answers 503 with the exact body
/// clients see; a closed queue is an internal error.  If recording
/// fails after the job was enqueued, the job stays queued and an
/// internal error is returned, as when the store fails mid-request.
pub fn submit_build(
    store: &mut Store,
    queue: &mut JobQueue<BuildJob>,
    build_id: u128,
    deploy: bool,
    now: u64,
) -> (r: Result<CreateBuildResponse, ApiError>)
    requires
        old(store).wf(),
    ensures
        final(store).wf(),
        final(queue).cap() == old(queue).cap(),
        final(queue).is_closed() == old(queue).is_closed(),
        old(queue).is_closed() ==> (r matches Err(ApiError::Internal(m)) && m@
            == "build queue is closed"@ && *final(store) == *old(store) && *final(queue) == *old(
            queue,
        )),
        !old(queue).is_closed() && old(queue)@.len() >= old(queue).cap() ==> (r matches Err(
            ApiError::ServiceUnavailable(m),
        ) && m@ == "build queue is full, please try again later"@ && *final(store) == *old(store)
            && *final(queue) == *old(queue)),
        !old(queue).is_closed() && old(queue)@.len() < old(queue).cap() ==> final(queue)@ == old(
            queue,
        )@.push(BuildJob { build_id, deploy }) && (if old(store).has_build(build_id) {
            (r matches Err(ApiError::Internal(_))) && *final(store) == *old(store)
        } else {
            (r matches Ok(resp) && resp.build_id@ == id_str(build_id) && resp.status@
                == "queued"@) && final(store).builds() == old(store).builds().push(
                BuildRecord {
                    id: build_id,
                    status: BuildStatus::Queued,
                    created_at: old(store).tick(now),
                    updated_at: old(store).tick(now),
                },
            ) && final(store).deployments() == old(store).deployments() && final(store).apps()
                == old(store).apps()
        }),
{
    let job = BuildJob { build_id, deploy };
    match queue.try_send(job) {
        Ok(()) => {},
        Err(QueueError::Full) => {
            return Err(
                ApiError::ServiceUnavailable(
                    "build queue is full, please try again later".to_owned(),
                ),
            );
        },
        Err(QueueError::Closed) => {
            return Err(ApiError::Internal("build queue is closed".to_owned()));
        },
    }
    match store.create_build(build_id, BuildStatus::Queued, now) {
        Ok(()) => {},
        Err(_) => {
            return Err(ApiError::Internal("failed to record build".to_owned()));
        },
    }
    let resp = CreateBuildResponse { build_id: format_id(build_id), status: "queued".to_owned() };
    Ok(resp)
}

/// The 400 message for an unparsable build id.
fn invalid_build_id_msg(id: &str) -> (r: String)
    ensures
        r@ == "Invalid build ID: "@ + id@,
{
    let mut m = "Invalid build ID: ".to_owned();
    m.append(id);
    m
}

/// Serves one build: 400 on a malformed id, 404 when unknown.
pub fn get_build_endpoint(store: &Store, id: &str) -> (r: Result<BuildResponse, ApiError>)
    requires
        store.wf(),
    ensures
        parse_id_spec(id@) is None ==> (r matches Err(ApiError::BadRequest(m)) && m@
            == "Invalid build ID: "@ + id@),
        parse_id_spec(id@) matches Some(b) ==> (if store.has_build(b) {
            (r matches Ok(resp) && build_response_matches(resp, store.build_of(b)))
        } else {
            r matches Err(ApiError::NotFound)
        }),
{
    let build_id = match parse_id(id) {
        Some(b) => b,
        None => {
            return Err(ApiError::BadRequest(invalid_build_id_msg(id)));
        },
    };
    match store.get_build(build_id) {
        Some(rec) => Ok(BuildResponse::from_record(&rec)),
        None => Err(ApiError::NotFound),
    }
}

/// The 400 message for an unknown status filter.
fn invalid_status_msg(status: &str) -> (r: String)
    ensures
        r@ == "Invalid status: Unknown build status: "@ + status@,
{
    let mut m = "Invalid status: Unknown build status: ".to_owned();
    m.append(status);
    m
}

/// Serves the build listing, newest first: 400 on an unknown status
/// filter, otherwise the filtered records shaped for clients.
pub fn list_builds_endpoint(store: &Store, status: Option<&str>, limit: Option<usize>) -> (r:
    Result<Vec<BuildResponse>, ApiError>)
    requires
        store.wf(),
    ensures
        ({
            let f = match status {
                Some(s) => BuildStatus::parse_spec(s@),
                None => None,
            };
            &&& status matches Some(s) ==> (BuildStatus::parse_spec(s@) is None ==> (r matches Err(
                ApiError::BadRequest(m),
            ) && m@ == "Invalid status: Unknown build status: "@ + s@))
            &&& (status is None || f is Some) ==> ({
                let full = crate::store::builds_desc(store.builds(), f);
                let n: int = match limit {
                    Some(l) => if l < full.len() {
                        l as int
                    } else {
                        full.len() as int
                    },
                    None => full.len() as int,
                };
                r matches Ok(v) && v@.len() == n && (forall|i: int|
                    0 <= i < n ==> build_response_matches(#[trigger] v@[i], full[i]))
            })
        }),
{
    let filter: Option<BuildStatus> = match status {
        Some(s) => match BuildStatus::from_str(s) {
            Some(st) => Some(st),
            None => {
                return Err(ApiError::BadRequest(invalid_status_msg(s)));
            },
        },
        None => None,
    };
    let recs = store.list_builds(limit, filter);
    let mut out: Vec<BuildResponse> = Vec::new();
    let mut i: usize = 0;
    while i < recs.len()
        invariant
            0 <= i <= recs@.len(),
            out@.len() == i,
            forall|j: int| 0 <= j < i ==> build_response_matches(#[trigger] out@[j], recs@[j]),
        decreases recs@.len() - i,
    {
        out.push(BuildResponse::from_record(&recs[i]));
        i += 1;
    }
    Ok(out)
}

/// The 400 message for an unparsable deployment id.
fn invalid_deployment_id_msg(id: &str) -> (r: String)
    ensures
        r@ == "Invalid deployment ID: "@ + id@,
{
    let mut m = "Invalid deployment ID: ".to_owned();
    m.append(id);
    m
}

/// Serves one deployment: 400 on a malformed id, 404 when unknown.
pub fn get_deployment_endpoint(store: &Store, id: &str) -> (r: Result<
    DeploymentResponse,
    ApiError,
>)
    requires
        store.wf(),
    ensures
        parse_id_spec(id@) is None ==> (r matches Err(ApiError::BadRequest(m)) && m@
            == "Invalid deployment ID: "@ + id@),
        parse_id_spec(id@) matches Some(d) ==> (if store.has_deployment(d) {
            (r matches Ok(resp) && deployment_response_matches(resp, store.deployment_of(d)))
        } else {
            r matches Err(ApiError::NotFound)
        }),
{
    let deploy_id = match parse_id(id) {
        Some(d) => d,
        None => {
            return Err(ApiError::BadRequest(invalid_deployment_id_msg(id)));
        },
    };
    match store.get_deployment(deploy_id) {
        Some(rec) => Ok(DeploymentResponse::from_record(&rec)),
        None => Err(ApiError::NotFound),
    }
}

/// Serves the deployment listing, newest first, optionally those of
/// one build: 400 on a malformed build id filter.
pub fn list_deployments_endpoint(store: &Store, build_id: Option<&str>) -> (r: Result<
    Vec<DeploymentResponse>,
    ApiError,
>)
    requires
        store.wf(),
    ensures
        build_id matches Some(s) ==> (parse_id_spec(s@) is None ==> (r matches Err(
            ApiError::BadRequest(m),
        ) && m@ == "Invalid build ID: "@ + s@)),
        ({
            let f = match build_id {
                Some(s) => parse_id_spec(s@),
                None => None,
            };
            (build_id is None || f is Some) ==> ({
                let full = crate::store::deps_desc(store.deployments(), f);
                r matches Ok(v) && v@.len() == full.len() && (forall|i: int|
                    0 <= i < full.len() ==> deployment_response_matches(
                        #[trigger] v@[i],
                        full[i],
                    ))
            })
        }),
{
    let filter: Option<u128> = match build_id {
        Some(s) => match parse_id(s) {
            Some(b) => Some(b),
            None => {
                return Err(ApiError::BadRequest(invalid_build_id_msg(s)));
            },
        },
        None => None,
    };
    let recs = store.list_deployments(filter);
    let mut out: Vec<DeploymentResponse> = Vec::new();
    let mut i: usize = 0;
    while i < recs.len()
        invariant
            0 <= i <= recs@.len(),
            out@.len() == i,
            forall|j: int|
                0 <= j < i ==> deployment_response_matches(#[trigger] out@[j], recs@[j]),
        decreases recs@.len() - i,
    {
        out.push(DeploymentResponse::from_record(&recs[i]));
        i += 1;
    }
    Ok(out)
}

} // verus!
