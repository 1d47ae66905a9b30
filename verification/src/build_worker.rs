//! The build worker's logic: one consumer draining the build queue.
//!
//! For each job it marks the build Building, has the archive extracted
//! into a fresh workspace, loads the project configuration, plans the
//! image build, records the outcome, and, when the job asks for it,
//! creates the deployment record and hands a deploy job on.  The
//! extraction and the engine subprocess run outside the library; the
//! decisions between them stand here, and a failure in one job never
//! stops the worker.

use crate::agent::AgentConfig;
use crate::builders::{kind_for, BuildError, BuildPlan, BuilderKind, Image};
use crate::config::NimbleConfig;
use crate::ids::{format_id, fresh_id, id_str};
use crate::queue::{DeployJob, JobQueue, QueueError};
use crate::status::{BuildStatus, DeployStatus};
use crate::store::{Store, StoreError};
use vstd::prelude::*;

verus! {

/// Why recording a job's outcome failed.
#[derive(Debug, Clone, Copy, PartialEq, Eq, Structural)]
pub enum WorkerError {
    /// A store write was refused.
    Store(StoreError),
    /// The deploy queue refused the job; the deployment record stays
    /// Queued and is never picked up.
    Queue(QueueError),
}

/// The single long-lived consumer of the build queue.
pub struct BuildWorker {
    config: AgentConfig,
}

impl BuildWorker {
    /// The configuration the worker derives its paths from.
    pub closed spec fn config_spec(self) -> AgentConfig {
        self.config
    }

    pub fn new(config: AgentConfig) -> (r: BuildWorker)
        ensures
            r.config_spec() == config,
    {
        BuildWorker { config }
    }

    /// The deterministic paths of one job: where its archive was
    /// saved, and the fresh directory it is extracted into.
    pub fn job_paths(&self, build_id: u128) -> (r: (String, String))
        ensures
            r.0@ == self.config_spec().data_dir_spec() + "/artifacts/source/"@ + id_str(build_id)
                + ".tar.gz"@,
            r.1@ == self.config_spec().data_dir_spec() + "/artifacts/build/"@ + id_str(build_id),
    {
        let paths = self.config.paths();
        (paths.source_archive(build_id), paths.build_dir(build_id))
    }

    /// Marks a picked-up build Building.
    pub fn begin_build(&self, store: &mut Store, build_id: u128, now: u64) -> (r: Result<
        (),
        StoreError,
    >)
        requires
            old(store).wf(),
        ensures
            final(store).wf(),
            old(store).container_iff_ran() ==> final(store).container_iff_ran(),
            !old(store).has_build(build_id) ==> r == Err::<(), StoreError>(StoreError::NotFound)
                && *final(store) == *old(store),
            old(store).has_build(build_id) && !old(store).build_of(build_id).status.can_step(
                BuildStatus::Building,
            ) ==> r == Err::<(), StoreError>(StoreError::InvalidTransition) && *final(store)
                == *old(store),
            old(store).has_build(build_id) && old(store).build_of(build_id).status.can_step(
                BuildStatus::Building,
            ) ==> r == Ok::<(), StoreError>(()) && final(store).has_build(build_id) && final(store).build_of(build_id).status == BuildStatus::Building,
    {
        store.update_build_status(build_id, BuildStatus::Building, now)
    }

    /// Records a failed build.  A build already in a terminal state is
    /// left as it is: terminal states are never overwritten.
    pub fn fail_build(&self, store: &mut Store, build_id: u128, now: u64) -> (r: Result<
        (),
        StoreError,
    >)
        requires
            old(store).wf(),
        ensures
            final(store).wf(),
            old(store).container_iff_ran() ==> final(store).container_iff_ran(),
            !old(store).has_build(build_id) ==> r == Err::<(), StoreError>(StoreError::NotFound)
                && *final(store) == *old(store),
            old(store).has_build(build_id) && !old(store).build_of(build_id).status.can_step(
                BuildStatus::Failed,
            ) ==> r == Err::<(), StoreError>(StoreError::InvalidTransition) && *final(store)
                == *old(store),
            old(store).has_build(build_id) && old(store).build_of(build_id).status.can_step(
                BuildStatus::Failed,
            ) ==> r == Ok::<(), StoreError>(()) && final(store).has_build(build_id) && final(store).build_of(build_id).status == BuildStatus::Failed,
    {
        store.update_build_status(build_id, BuildStatus::Failed, now)
    }

    /// Plans the image build for a loaded configuration: the image is
    /// named `nimble-build-<build_id>` and tagged `latest`, and the
    /// configured strategy decides whether planning succeeds.
    pub fn plan_image(
        &self,
        cfg: &NimbleConfig,
        build_id: u128,
        build_dir: &str,
        dockerfile_present: bool,
    ) -> (r: Result<BuildPlan, BuildError>)
        ensures
            (r is Ok) == kind_for(cfg.builder_type).plan_ok(dockerfile_present),
            r matches Ok(p) ==> p.image_reference@ == "nimble-build-"@ + id_str(build_id)
                + ":latest"@ && p.dockerfile_path@ == build_dir@ + "/Dockerfile"@
                && p.context_dir@ == build_dir@,
            r matches Err(e) ==> e == kind_for(cfg.builder_type).plan_err(),
    {
        proof {
            reveal_strlit("nimble-build-");
            reveal_strlit("latest");
            reveal_strlit(":");
            reveal_strlit(":latest");
        }
        let mut image_name = "nimble-build-".to_owned();
        let id = format_id(build_id);
        image_name.append(id.as_str());
        let builder = crate::builders::select_builder(cfg.builder_type);
        let r = builder.plan(build_dir, dockerfile_present, image_name.as_str(), "latest");
        proof {
            if r is Ok {
                assert(crate::builders::image_ref_of(image_name@, "latest"@)
                    =~= "nimble-build-"@ + id_str(build_id) + ":latest"@);
            }
        }
        r
    }

    /// Records a successful build and, when the job asks for a
    /// deployment, creates the app and the Queued deployment record
    /// and enqueues the deploy job, capturing the app's active
    /// deployment as it was before this job.
    ///
    /// The deployment id is freshly generated, so success additionally
    /// depends on it not colliding; if the deploy queue refuses the
    /// job, the deployment record stays Queued and the error says so.
    #[verifier::rlimit(60)]
    pub fn complete_build(
        &self,
        store: &mut Store,
        deploy_queue: &mut JobQueue<DeployJob>,
        job: &crate::queue::BuildJob,
        cfg: &NimbleConfig,
        image: &Image,
        now: u64,
    ) -> (r: Result<Option<DeployJob>, WorkerError>)
        requires
            old(store).wf(),
        ensures
            final(store).wf(),
            old(store).container_iff_ran() ==> final(store).container_iff_ran(),
            final(deploy_queue).cap() == old(deploy_queue).cap(),
            final(deploy_queue).is_closed() == old(deploy_queue).is_closed(),
            !old(store).has_build(job.build_id) ==> r == Err::<Option<DeployJob>, WorkerError>(
                WorkerError::Store(StoreError::NotFound),
            ) && *final(store) == *old(store) && *final(deploy_queue) == *old(deploy_queue),
            old(store).has_build(job.build_id) && !old(store).build_of(job.build_id).status.can_step(
                BuildStatus::Success,
            ) ==> r == Err::<Option<DeployJob>, WorkerError>(
                WorkerError::Store(StoreError::InvalidTransition),
            ) && *final(store) == *old(store) && *final(deploy_queue) == *old(deploy_queue),
            old(store).has_build(job.build_id) && old(store).build_of(job.build_id).status.can_step(
                BuildStatus::Success,
            ) && !job.deploy ==> r == Ok::<Option<DeployJob>, WorkerError>(None) && final(store).has_build(job.build_id) && final(store).build_of(job.build_id).status
                == BuildStatus::Success && final(store).deployments() == old(store).deployments()
                && final(store).apps() == old(store).apps() && *final(deploy_queue) == *old(deploy_queue),
            old(store).has_build(job.build_id) && old(store).build_of(job.build_id).status.can_step(
                BuildStatus::Success,
            ) && job.deploy ==> ({
                &&& final(store).has_build(job.build_id)
                &&& final(store).build_of(job.build_id).status == BuildStatus::Success
                &&& final(store).has_app(cfg.app@)
                &&& (r matches Ok(o) ==> (o matches Some(dj) && dj.build_id == job.build_id
                    && dj.app@ == cfg.app@ && dj.image_reference@ == image.reference@
                    && dj.app_port == cfg.port && dj.previous_active_deployment == (if old(store).has_app(cfg.app@) {
                    old(store).app_of(cfg.app@).active_deployment_id
                } else {
                    Option::<u128>::None
                }) && final(store).has_deployment(dj.deploy_id) && final(store).deployment_of(
                    dj.deploy_id,
                ).status == DeployStatus::Queued && final(store).deployment_of(
                    dj.deploy_id,
                ).build_id == job.build_id && final(store).deployment_of(dj.deploy_id).app@
                    == cfg.app@ && final(store).deployment_of(dj.deploy_id).image@
                    == image.reference@ && final(deploy_queue)@ == old(deploy_queue)@.push(dj)))
                &&& (!old(deploy_queue).is_closed() && old(deploy_queue)@.len() < old(deploy_queue).cap() ==> !(r matches Err(WorkerError::Queue(_))))
            }),
    {
        match store.update_build_status(job.build_id, BuildStatus::Success, now) {
            Ok(()) => {},
            Err(e) => {
                return Err(WorkerError::Store(e));
            },
        }
        if !job.deploy {
            return Ok(None);
        }
        let deploy_id = fresh_id();
        store.upsert_app(cfg.app.as_str(), now);
        let previous = store.get_active_deployment_id(cfg.app.as_str());
        match store.create_deployment(
            deploy_id,
            job.build_id,
            cfg.app.as_str(),
            image.reference.as_str(),
            DeployStatus::Queued,
            None,
            now,
        ) {
            Ok(()) => {},
            Err(e) => {
                return Err(WorkerError::Store(e));
            },
        }
        let dj = DeployJob {
            deploy_id,
            build_id: job.build_id,
            app: cfg.app.clone(),
            image_reference: image.reference.clone(),
            app_port: cfg.port,
            previous_active_deployment: previous,
        };
        let dj_kept = DeployJob {
            deploy_id,
            build_id: job.build_id,
            app: cfg.app.clone(),
            image_reference: image.reference.clone(),
            app_port: cfg.port,
            previous_active_deployment: previous,
        };
        proof {
            assert(dj_kept == dj);
        }
        match deploy_queue.try_send(dj) {
            Ok(()) => Ok(Some(dj_kept)),
            Err(e) => Err(WorkerError::Queue(e)),
        }
    }
}

} // verus!
