use nimble::api::{
    get_build_endpoint, get_deployment_endpoint, list_builds_endpoint, list_deployments_endpoint,
    submit_build, ApiError,
};
use nimble::ids::format_id;
use nimble::queue::{BuildJob, JobQueue};
use nimble::status::{BuildStatus, DeployStatus};
use nimble::store::Store;

#[test]
fn submission_records_a_queued_build() {
    let mut store = Store::new();
    let mut q: JobQueue<BuildJob> = JobQueue::new(10);
    let resp = submit_build(&mut store, &mut q, 42, true, 5).unwrap();
    assert_eq!(resp.build_id, format_id(42));
    assert_eq!(resp.status, "queued");
    assert_eq!(store.get_build(42).unwrap().status, BuildStatus::Queued);
    let job = q.try_recv().unwrap();
    assert_eq!(job.build_id, 42);
    assert!(job.deploy);
}

#[test]
fn get_build_rejects_malformed_ids() {
    let store = Store::new();
    let err = get_build_endpoint(&store, "zzz").unwrap_err();
    assert_eq!(err.status_code(), 400);
    assert_eq!(err.body_message(), "Invalid build ID: zzz");
}

#[test]
fn get_build_answers_404_for_unknown() {
    let store = Store::new();
    let err = get_build_endpoint(&store, &format_id(9)).unwrap_err();
    assert!(matches!(err, ApiError::NotFound));
    assert_eq!(err.status_code(), 404);
    assert_eq!(err.body_message(), "not found");
}

#[test]
fn get_build_serves_the_record() {
    let mut store = Store::new();
    store.create_build(9, BuildStatus::Queued, 123).unwrap();
    let resp = get_build_endpoint(&store, &format_id(9)).unwrap();
    assert_eq!(resp.id, format_id(9));
    assert_eq!(resp.status, "queued");
    assert_eq!(resp.created_at, "123");
    assert_eq!(resp.updated_at, "123");
}

#[test]
fn list_builds_rejects_unknown_status() {
    let store = Store::new();
    let err = list_builds_endpoint(&store, Some("pending"), None).unwrap_err();
    assert_eq!(err.status_code(), 400);
    assert_eq!(err.body_message(), "Invalid status: Unknown build status: pending");
}

#[test]
fn list_builds_serves_filtered_newest_first() {
    let mut store = Store::new();
    store.create_build(1, BuildStatus::Queued, 1).unwrap();
    store.create_build(2, BuildStatus::Queued, 2).unwrap();
    store.update_build_status(2, BuildStatus::Building, 3).unwrap();
    let resp = list_builds_endpoint(&store, Some("queued"), None).unwrap();
    assert_eq!(resp.len(), 1);
    assert_eq!(resp[0].id, format_id(1));
    let all = list_builds_endpoint(&store, None, Some(1)).unwrap();
    assert_eq!(all.len(), 1);
    assert_eq!(all[0].id, format_id(2));
}

#[test]
fn deployment_endpoints_serve_and_reject() {
    let mut store = Store::new();
    store.create_build(1, BuildStatus::Queued, 1).unwrap();
    store
        .create_deployment(10, 1, "hello", "img:latest", DeployStatus::Queued, None, 2)
        .unwrap();

    let err = get_deployment_endpoint(&store, "nope").unwrap_err();
    assert_eq!(err.body_message(), "Invalid deployment ID: nope");
    let err = get_deployment_endpoint(&store, &format_id(11)).unwrap_err();
    assert!(matches!(err, ApiError::NotFound));

    let resp = get_deployment_endpoint(&store, &format_id(10)).unwrap();
    assert_eq!(resp.build_id, format_id(1));
    assert_eq!(resp.app, "hello");
    assert_eq!(resp.image, "img:latest");
    assert_eq!(resp.status, "queued");
    assert!(resp.container_id.is_none());

    let listed = list_deployments_endpoint(&store, Some(&format_id(1))).unwrap();
    assert_eq!(listed.len(), 1);
    let empty = list_deployments_endpoint(&store, Some(&format_id(2))).unwrap();
    assert!(empty.is_empty());
    let err = list_deployments_endpoint(&store, Some("bad")).unwrap_err();
    assert_eq!(err.body_message(), "Invalid build ID: bad");
}

#[test]
fn internal_errors_stay_opaque() {
    let err = ApiError::Internal("secret detail".to_string());
    assert_eq!(err.status_code(), 500);
    assert_eq!(err.body_message(), "internal server error");
}
