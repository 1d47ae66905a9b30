use nimble::status::{BuildStatus, DeployStatus};
use nimble::store::{Store, StoreError};

fn store_with_success_build(id: u128) -> Store {
    let mut s = Store::new();
    s.create_build(id, BuildStatus::Queued, 1).unwrap();
    s.update_build_status(id, BuildStatus::Building, 2).unwrap();
    s.update_build_status(id, BuildStatus::Success, 3).unwrap();
    s
}

#[test]
fn creates_and_reads_builds() {
    let mut s = Store::new();
    s.create_build(7, BuildStatus::Queued, 100).unwrap();
    let rec = s.get_build(7).unwrap();
    assert_eq!(rec.id, 7);
    assert_eq!(rec.status, BuildStatus::Queued);
    assert_eq!(rec.created_at, 100);
    assert_eq!(rec.updated_at, 100);
    assert!(s.get_build(8).is_none());
}

#[test]
fn build_id_collision_is_refused() {
    let mut s = Store::new();
    s.create_build(7, BuildStatus::Queued, 1).unwrap();
    assert_eq!(s.create_build(7, BuildStatus::Queued, 2), Err(StoreError::IdCollision));
}

#[test]
fn build_status_never_leaves_success() {
    let mut s = store_with_success_build(1);
    assert_eq!(s.update_build_status(1, BuildStatus::Building, 4), Err(StoreError::InvalidTransition));
    assert_eq!(s.update_build_status(1, BuildStatus::Queued, 5), Err(StoreError::InvalidTransition));
    assert_eq!(s.update_build_status(1, BuildStatus::Failed, 6), Err(StoreError::InvalidTransition));
    assert_eq!(s.get_build(1).unwrap().status, BuildStatus::Success);
}

#[test]
fn build_status_never_leaves_failed() {
    let mut s = Store::new();
    s.create_build(1, BuildStatus::Queued, 1).unwrap();
    s.update_build_status(1, BuildStatus::Building, 2).unwrap();
    s.update_build_status(1, BuildStatus::Failed, 3).unwrap();
    assert_eq!(s.update_build_status(1, BuildStatus::Success, 4), Err(StoreError::InvalidTransition));
    assert_eq!(s.get_build(1).unwrap().status, BuildStatus::Failed);
}

#[test]
fn rewriting_the_same_build_status_touches_only_updated_at() {
    let mut s = Store::new();
    s.create_build(1, BuildStatus::Queued, 10).unwrap();
    s.update_build_status(1, BuildStatus::Queued, 20).unwrap();
    let rec = s.get_build(1).unwrap();
    assert_eq!(rec.status, BuildStatus::Queued);
    assert_eq!(rec.created_at, 10);
    assert_eq!(rec.updated_at, 20);
}

#[test]
fn lists_builds_newest_first_with_filter_and_limit() {
    let mut s = Store::new();
    s.create_build(1, BuildStatus::Queued, 1).unwrap();
    s.create_build(2, BuildStatus::Queued, 2).unwrap();
    s.create_build(3, BuildStatus::Queued, 3).unwrap();
    s.update_build_status(2, BuildStatus::Building, 4).unwrap();

    let all = s.list_builds(None, None);
    assert_eq!(all.iter().map(|b| b.id).collect::<Vec<_>>(), vec![3, 2, 1]);

    let queued = s.list_builds(None, Some(BuildStatus::Queued));
    assert_eq!(queued.iter().map(|b| b.id).collect::<Vec<_>>(), vec![3, 1]);

    let limited = s.list_builds(Some(2), None);
    assert_eq!(limited.iter().map(|b| b.id).collect::<Vec<_>>(), vec![3, 2]);

    let over_limit = s.list_builds(Some(10), None);
    assert_eq!(over_limit.len(), 3);
}

#[test]
fn deployment_must_be_created_queued() {
    let mut s = store_with_success_build(1);
    assert_eq!(
        s.create_deployment(10, 1, "app", "img:latest", DeployStatus::Running, None, 4),
        Err(StoreError::InvalidStatus)
    );
    s.create_deployment(10, 1, "app", "img:latest", DeployStatus::Queued, None, 5).unwrap();
    let rec = s.get_deployment(10).unwrap();
    assert_eq!(rec.status, DeployStatus::Queued);
    assert_eq!(rec.build_id, 1);
    assert_eq!(rec.app, "app");
    assert_eq!(rec.image, "img:latest");
    assert!(rec.container_id.is_none());
}

#[test]
fn running_requires_parent_success_and_container() {
    let mut s = Store::new();
    s.create_build(1, BuildStatus::Queued, 1).unwrap();
    s.create_deployment(10, 1, "app", "img", DeployStatus::Queued, None, 2).unwrap();
    s.update_deployment_status(10, DeployStatus::Deploying, 3).unwrap();
    // parent build still Queued: refusing keeps the coupling invariant
    assert_eq!(
        s.update_deployment_status(10, DeployStatus::Running, 4),
        Err(StoreError::ParentNotSuccess)
    );
    s.update_build_status(1, BuildStatus::Building, 5).unwrap();
    s.update_build_status(1, BuildStatus::Success, 6).unwrap();
    // no container recorded yet
    assert_eq!(s.update_deployment_status(10, DeployStatus::Running, 7), Err(StoreError::NoContainer));
    s.set_deployment_container(10, "c1", "nimble-deploy-x", Some("http://127.0.0.1:4".to_string()), 8)
        .unwrap();
    s.update_deployment_status(10, DeployStatus::Running, 9).unwrap();
    let rec = s.get_deployment(10).unwrap();
    assert_eq!(rec.status, DeployStatus::Running);
    assert_eq!(rec.container_id.as_deref(), Some("c1"));
    assert_eq!(rec.address.as_deref(), Some("http://127.0.0.1:4"));
}

#[test]
fn container_is_recorded_exactly_once() {
    let mut s = store_with_success_build(1);
    s.create_deployment(10, 1, "app", "img", DeployStatus::Queued, None, 4).unwrap();
    s.update_deployment_status(10, DeployStatus::Deploying, 5).unwrap();
    s.set_deployment_container(10, "c1", "n1", None, 6).unwrap();
    assert_eq!(s.set_deployment_container(10, "c2", "n2", None, 7), Err(StoreError::AlreadySet));
}

#[test]
fn rewriting_the_same_deployment_status_touches_only_updated_at() {
    let mut s = store_with_success_build(1);
    s.create_deployment(10, 1, "app", "img", DeployStatus::Queued, None, 4).unwrap();
    let before = s.get_deployment(10).unwrap();
    s.update_deployment_status(10, DeployStatus::Queued, 50).unwrap();
    let after = s.get_deployment(10).unwrap();
    assert_eq!(after.status, before.status);
    assert_eq!(after.created_at, before.created_at);
    assert_eq!(after.container_id, before.container_id);
    assert_eq!(after.address, before.address);
    assert_eq!(after.updated_at, 50);
}

#[test]
fn upserting_twice_leaves_the_app_unchanged_apart_from_timestamps() {
    let mut s = Store::new();
    s.upsert_app("hello", 10);
    let first = s.list_builds(None, None); // unrelated records untouched
    assert!(first.is_empty());
    s.upsert_app("hello", 20);
    assert_eq!(s.get_active_deployment_id("hello"), None);
    // a second upsert must not create a second record: the active
    // pointer survives, and only timestamps may differ
    let mut t = store_with_success_build(1);
    t.create_deployment(10, 1, "hello", "img", DeployStatus::Queued, None, 4).unwrap();
    t.update_deployment_status(10, DeployStatus::Deploying, 5).unwrap();
    t.set_deployment_container(10, "c", "n", None, 6).unwrap();
    t.update_deployment_status(10, DeployStatus::Running, 7).unwrap();
    t.upsert_app("hello", 8);
    t.set_active_deployment("hello", Some(10), 9).unwrap();
    t.upsert_app("hello", 11);
    assert_eq!(t.get_active_deployment_id("hello"), Some(10));
}

#[test]
fn active_pointer_requires_a_running_deployment() {
    let mut s = store_with_success_build(1);
    s.create_deployment(10, 1, "hello", "img", DeployStatus::Queued, None, 4).unwrap();
    s.upsert_app("hello", 5);
    assert_eq!(s.set_active_deployment("hello", Some(10), 6), Err(StoreError::NotRunning));
    assert_eq!(s.set_active_deployment("ghost", None, 7), Err(StoreError::NotFound));
    s.set_active_deployment("hello", None, 8).unwrap();
    assert_eq!(s.get_active_deployment_id("hello"), None);
}

#[test]
fn lists_deployments_by_build() {
    let mut s = store_with_success_build(1);
    s.create_deployment(10, 1, "a", "img1", DeployStatus::Queued, None, 4).unwrap();
    s.create_deployment(11, 2, "b", "img2", DeployStatus::Queued, None, 5).unwrap();
    s.create_deployment(12, 1, "a", "img3", DeployStatus::Queued, None, 6).unwrap();
    let of_build_1 = s.list_deployments(Some(1));
    assert_eq!(of_build_1.iter().map(|d| d.id).collect::<Vec<_>>(), vec![12, 10]);
    let all = s.list_deployments(None);
    assert_eq!(all.iter().map(|d| d.id).collect::<Vec<_>>(), vec![12, 11, 10]);
}
