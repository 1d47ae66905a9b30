//! The end-to-end scenarios, driven at the logic level: the verified
//! pipeline runs with hand-fed engine outcomes in place of the
//! container engine and the filesystem.

use nimble::agent::{AgentConfig, RunMode};
use nimble::api::submit_build;
use nimble::build_worker::BuildWorker;
use nimble::builders::BuildError;
use nimble::config::NimbleConfig;
use nimble::deploy_worker::DeployWorker;
use nimble::extract::vet_entry;
use nimble::queue::{BuildJob, DeployJob, JobQueue};
use nimble::status::{BuildStatus, DeployStatus};
use nimble::store::Store;

struct Rig {
    store: Store,
    build_q: JobQueue<BuildJob>,
    deploy_q: JobQueue<DeployJob>,
    build_worker: BuildWorker,
    deploy_worker: DeployWorker,
    now: u64,
}

impl Rig {
    fn new() -> Rig {
        Rig {
            store: Store::new(),
            build_q: JobQueue::new(100),
            deploy_q: JobQueue::new(100),
            build_worker: BuildWorker::new(AgentConfig::new(RunMode::Dev)),
            deploy_worker: DeployWorker::new(),
            now: 0,
        }
    }

    fn tick(&mut self) -> u64 {
        self.now += 1;
        self.now
    }

    /// Submits a build and runs the build worker on it, with the given
    /// extracted config text (None models a missing nimble.yaml) and
    /// engine verdict.
    fn run_build(
        &mut self,
        build_id: u128,
        config_text: Option<&str>,
        engine_ok: bool,
    ) -> Option<DeployJob> {
        let t = self.tick();
        submit_build(&mut self.store, &mut self.build_q, build_id, true, t).unwrap();
        let job = self.build_q.try_recv().unwrap();
        assert_eq!(job.build_id, build_id);
        let t = self.tick();
        self.build_worker.begin_build(&mut self.store, job.build_id, t).unwrap();
        let cfg = match config_text {
            Some(text) => match NimbleConfig::from_str(text) {
                Ok(cfg) => cfg,
                Err(_) => {
                    let t = self.tick();
                    self.build_worker.fail_build(&mut self.store, job.build_id, t).unwrap();
                    return None;
                }
            },
            None => {
                let t = self.tick();
                self.build_worker.fail_build(&mut self.store, job.build_id, t).unwrap();
                return None;
            }
        };
        let plan = match self.build_worker.plan_image(&cfg, job.build_id, "/ws", true) {
            Ok(plan) => plan,
            Err(_) => {
                let t = self.tick();
                self.build_worker.fail_build(&mut self.store, job.build_id, t).unwrap();
                return None;
            }
        };
        if !engine_ok {
            let t = self.tick();
            self.build_worker.fail_build(&mut self.store, job.build_id, t).unwrap();
            return None;
        }
        let image = nimble::builders::Image::new(&plan.image_reference);
        let t = self.tick();
        let out = self
            .build_worker
            .complete_build(&mut self.store, &mut self.deploy_q, &job, &cfg, &image, t)
            .unwrap();
        out
    }

    /// Runs the deploy worker on the next queued job, with the given
    /// container id and port-lookup output, returning the deploy id.
    fn run_deploy(&mut self, container_id: &str, port_stdout: &str, predecessor_gone: bool) -> u128 {
        let job = self.deploy_q.try_recv().unwrap();
        let t = self.tick();
        self.deploy_worker.begin_deploy(&mut self.store, job.deploy_id, t).unwrap();
        if let Some(previous) = job.previous_active_deployment {
            let reference = self.deploy_worker.prepare_retire(&self.store, previous);
            if reference.is_some() {
                // the engine removal happens here; a missing container
                // still counts as removed
                let ok = if predecessor_gone {
                    self.deploy_worker.removal_ok(false, "Error: no such container: x")
                } else {
                    self.deploy_worker.removal_ok(true, "")
                };
                assert!(ok);
            }
            let t = self.tick();
            self.deploy_worker.record_retire(&mut self.store, previous, t).unwrap();
        }
        let name = self.deploy_worker.container_name_for(job.deploy_id);
        let args = self.deploy_worker.run_args(&job, &name);
        assert_eq!(args[0], "run");
        let cid = self
            .deploy_worker
            .interpret_run_output(true, &format!("{container_id}\n"))
            .unwrap();
        assert_eq!(cid, container_id);
        let address = self
            .deploy_worker
            .parse_host_port(port_stdout)
            .map(|p| self.deploy_worker.address_for(&p));
        let t = self.tick();
        self.deploy_worker
            .promote(&mut self.store, job.deploy_id, &job.app, &cid, &name, address, t)
            .unwrap();
        job.deploy_id
    }
}

const HELLO_YAML: &str = "builder: dockerfile\napp: hello\nport: 8080\n";

#[test]
fn happy_path_ends_running_with_address() {
    let mut rig = Rig::new();
    let dj = rig.run_build(1, Some(HELLO_YAML), true).unwrap();
    assert_eq!(dj.app, "hello");
    assert_eq!(dj.app_port, 8080);
    assert_eq!(dj.previous_active_deployment, None);
    assert_eq!(rig.store.get_build(1).unwrap().status, BuildStatus::Success);

    let deploy_id = rig.run_deploy("c0ffee", "0.0.0.0:32768\n", false);
    let rec = rig.store.get_deployment(deploy_id).unwrap();
    assert_eq!(rec.status, DeployStatus::Running);
    assert_eq!(rec.container_id.as_deref(), Some("c0ffee"));
    assert!(rec.container_name.is_some());
    assert_eq!(rec.address.as_deref(), Some("http://127.0.0.1:32768"));
    assert_eq!(rig.store.get_active_deployment_id("hello"), Some(deploy_id));
    let deployments = rig.store.list_deployments(Some(1));
    assert_eq!(deployments.len(), 1);
}

#[test]
fn rollover_stops_the_predecessor() {
    let mut rig = Rig::new();
    rig.run_build(1, Some(HELLO_YAML), true).unwrap();
    let first = rig.run_deploy("c1", "0.0.0.0:31000\n", false);

    let dj2 = rig.run_build(2, Some(HELLO_YAML), true).unwrap();
    assert_eq!(dj2.previous_active_deployment, Some(first));
    let second = rig.run_deploy("c2", "0.0.0.0:31001\n", false);

    assert_eq!(rig.store.get_deployment(first).unwrap().status, DeployStatus::Stopped);
    assert_eq!(rig.store.get_deployment(second).unwrap().status, DeployStatus::Running);
    assert_eq!(rig.store.get_active_deployment_id("hello"), Some(second));
    assert_eq!(rig.store.get_build(1).unwrap().status, BuildStatus::Success);
    assert_eq!(rig.store.get_build(2).unwrap().status, BuildStatus::Success);
}

#[test]
fn missing_config_fails_the_build_without_a_deployment() {
    let mut rig = Rig::new();
    assert!(rig.run_build(1, None, true).is_none());
    assert_eq!(rig.store.get_build(1).unwrap().status, BuildStatus::Failed);
    assert!(rig.store.list_deployments(None).is_empty());
    assert!(rig.deploy_q.try_recv().is_none());
}

#[test]
fn unsafe_archive_fails_the_build_without_a_deployment() {
    let mut rig = Rig::new();
    let t = rig.tick();
    submit_build(&mut rig.store, &mut rig.build_q, 1, true, t).unwrap();
    let job = rig.build_q.try_recv().unwrap();
    let t = rig.tick();
    rig.build_worker.begin_build(&mut rig.store, job.build_id, t).unwrap();
    // extraction vets each entry; the escape attempt stops the build
    let vetted = vet_entry("../escape", 4, "/ws");
    assert!(vetted.is_err());
    let t = rig.tick();
    rig.build_worker.fail_build(&mut rig.store, job.build_id, t).unwrap();
    assert_eq!(rig.store.get_build(1).unwrap().status, BuildStatus::Failed);
    assert!(rig.store.list_deployments(None).is_empty());
}

#[test]
fn full_queue_returns_service_unavailable() {
    let mut store = Store::new();
    let mut q: JobQueue<BuildJob> = JobQueue::new(2);
    submit_build(&mut store, &mut q, 1, true, 1).unwrap();
    submit_build(&mut store, &mut q, 2, true, 2).unwrap();
    let err = submit_build(&mut store, &mut q, 3, true, 3).unwrap_err();
    assert_eq!(err.status_code(), 503);
    assert_eq!(err.body_message(), "build queue is full, please try again later");
    // the refused submission left no record behind
    assert!(store.get_build(3).is_none());
}

#[test]
fn missing_predecessor_container_still_promotes() {
    let mut rig = Rig::new();
    rig.run_build(1, Some(HELLO_YAML), true).unwrap();
    let first = rig.run_deploy("c1", "0.0.0.0:31000\n", false);
    rig.run_build(2, Some(HELLO_YAML), true).unwrap();
    // the first container was removed by hand: the engine reports
    // "no such container", which counts as a successful retirement
    let second = rig.run_deploy("c2", "0.0.0.0:31001\n", true);
    assert_eq!(rig.store.get_deployment(first).unwrap().status, DeployStatus::Stopped);
    assert_eq!(rig.store.get_deployment(second).unwrap().status, DeployStatus::Running);
    assert_eq!(rig.store.get_active_deployment_id("hello"), Some(second));
}

#[test]
fn completing_an_unknown_build_is_a_store_error() {
    let mut rig = Rig::new();
    let cfg = NimbleConfig::from_str(HELLO_YAML).unwrap();
    let image = nimble::builders::Image::new("img:latest");
    let job = BuildJob { build_id: 99, deploy: true };
    let err = rig
        .build_worker
        .complete_build(&mut rig.store, &mut rig.deploy_q, &job, &cfg, &image, 1)
        .unwrap_err();
    assert_eq!(
        err,
        nimble::build_worker::WorkerError::Store(nimble::store::StoreError::NotFound)
    );
}

#[test]
fn full_deploy_queue_is_a_queue_error() {
    let mut rig = Rig::new();
    rig.deploy_q = JobQueue::new(0);
    let t = rig.tick();
    submit_build(&mut rig.store, &mut rig.build_q, 1, true, t).unwrap();
    let job = rig.build_q.try_recv().unwrap();
    let t = rig.tick();
    rig.build_worker.begin_build(&mut rig.store, job.build_id, t).unwrap();
    let cfg = NimbleConfig::from_str(HELLO_YAML).unwrap();
    let image = nimble::builders::Image::new("img:latest");
    let t = rig.tick();
    let err = rig
        .build_worker
        .complete_build(&mut rig.store, &mut rig.deploy_q, &job, &cfg, &image, t)
        .unwrap_err();
    assert_eq!(err, nimble::build_worker::WorkerError::Queue(nimble::queue::QueueError::Full));
    // the build is recorded Success; the deployment sits Queued, unpicked
    assert_eq!(rig.store.get_build(1).unwrap().status, BuildStatus::Success);
    let deployments = rig.store.list_deployments(Some(1));
    assert_eq!(deployments.len(), 1);
    assert_eq!(deployments[0].status, DeployStatus::Queued);
}

#[test]
fn go_builder_is_refused_as_unimplemented() {
    let rig = Rig::new();
    let cfg = NimbleConfig::from_str("builder: go\napp: hello\n").unwrap();
    let err = rig.build_worker.plan_image(&cfg, 1, "/ws", true).unwrap_err();
    assert_eq!(err, BuildError::Unimplemented);
}
