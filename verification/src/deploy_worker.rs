//! The deploy worker's logic: one consumer draining the deploy queue.
//!
//! For each job it marks the deployment Deploying, retires the
//! predecessor captured at enqueue time (best effort: a missing
//! container counts as removed), runs the new container, reads the
//! published host port from the engine's output, records the container
//! and flips the app's active deployment.  The engine subprocesses run
//! outside the library; every decision between them stands here.

use crate::ids::{format_id, id_str};
use crate::queue::DeployJob;
use crate::status::DeployStatus;
use crate::store::{Store, StoreError};
use crate::text::{
    append_dec, dec_str, find_char, first_idx, last_idx, lemma_first_idx_at,
    lemma_first_idx_bounds, lemma_last_idx_at, seq_contains, str_contains, trim, trimmed,
};
use vstd::prelude::*;

verus! {

/// Why interpreting the engine's run output failed.
#[derive(Debug, Clone, Copy, PartialEq, Eq, Structural)]
pub enum RunOutputError {
    /// The run command exited non-zero.
    EngineFailed,
    /// The run command succeeded but printed no container id.
    NoContainerId,
}

/// The single long-lived consumer of the deploy queue.
pub struct DeployWorker;

impl DeployWorker {
    pub fn new() -> (r: DeployWorker) {
        DeployWorker
    }

    /// Marks a picked-up deployment Deploying.
    pub fn begin_deploy(&self, store: &mut Store, deploy_id: u128, now: u64) -> (r: Result<
        (),
        StoreError,
    >)
        requires
            old(store).wf(),
        ensures
            final(store).wf(),
            old(store).container_iff_ran() ==> final(store).container_iff_ran(),
            !old(store).has_deployment(deploy_id) ==> r == Err::<(), StoreError>(
                StoreError::NotFound,
            ) && *final(store) == *old(store),
            old(store).has_deployment(deploy_id) && !old(store).deployment_of(
                deploy_id,
            ).status.can_step(DeployStatus::Deploying) ==> r == Err::<(), StoreError>(
                StoreError::InvalidTransition,
            ) && *final(store) == *old(store),
            old(store).has_deployment(deploy_id) && old(store).deployment_of(
                deploy_id,
            ).status.can_step(DeployStatus::Deploying) ==> r == Ok::<(), StoreError>(()) && final(store).has_deployment(deploy_id) && final(store).deployment_of(deploy_id).status
                == DeployStatus::Deploying,
    {
        store.update_deployment_status(deploy_id, DeployStatus::Deploying, now)
    }

    /// Reads the container reference of the predecessor to retire, if
    /// its record exists and ever got one.
    pub fn prepare_retire(&self, store: &Store, previous_id: u128) -> (r: Option<String>)
        requires
            store.wf(),
        ensures
            match r {
                Some(c) => store.has_deployment(previous_id) && (store.deployment_of(
                    previous_id,
                ).container_id matches Some(cid) && c@ == cid@),
                None => !store.has_deployment(previous_id) || store.deployment_of(
                    previous_id,
                ).container_id is None,
            },
    {
        match store.get_deployment(previous_id) {
            Some(rec) => match rec.container_id {
                Some(c) => Some(c),
                None => None,
            },
            None => None,
        }
    }

    /// Whether a forced container removal counts as success: the
    /// command succeeded, or it failed because there was no such
    /// container, which is exactly the state removal wants.
    pub fn removal_ok(&self, success: bool, stderr: &str) -> (r: bool)
        ensures
            r == (success || seq_contains(stderr@, "no such container"@)),
    {
        success || str_contains(stderr, "no such container")
    }

    /// Records the retirement: the predecessor becomes Stopped
    /// whatever the engine said, as long as its record allows it.
    pub fn record_retire(&self, store: &mut Store, previous_id: u128, now: u64) -> (r: Result<
        (),
        StoreError,
    >)
        requires
            old(store).wf(),
        ensures
            final(store).wf(),
            old(store).container_iff_ran() ==> final(store).container_iff_ran(),
            !old(store).has_deployment(previous_id) ==> r == Err::<(), StoreError>(
                StoreError::NotFound,
            ) && *final(store) == *old(store),
            old(store).has_deployment(previous_id) && !old(store).deployment_of(
                previous_id,
            ).status.can_step(DeployStatus::Stopped) ==> r == Err::<(), StoreError>(
                StoreError::InvalidTransition,
            ) && *final(store) == *old(store),
            old(store).has_deployment(previous_id) && old(store).deployment_of(
                previous_id,
            ).status.can_step(DeployStatus::Stopped) ==> r == Ok::<(), StoreError>(()) && final(store).has_deployment(previous_id) && final(store).deployment_of(previous_id).status
                == DeployStatus::Stopped && final(store).deployment_of(previous_id).container_id
                == old(store).deployment_of(previous_id).container_id,
    {
        store.update_deployment_status(previous_id, DeployStatus::Stopped, now)
    }

    /// The name the new container runs under:
    /// `nimble-deploy-<deploy_id>`.
    pub fn container_name_for(&self, deploy_id: u128) -> (r: String)
        ensures
            r@ == "nimble-deploy-"@ + id_str(deploy_id),
    {
        let mut out = "nimble-deploy-".to_owned();
        let id = format_id(deploy_id);
        out.append(id.as_str());
        out
    }

    /// The arguments of the engine's run command: detached, the app
    /// port published to an ephemeral host port, the container named,
    /// and the app and deployment recorded as labels.
    pub fn run_args(&self, job: &DeployJob, container_name: &str) -> (r: Vec<String>)
        ensures
            r@.len() == 11,
            r@[0]@ == "run"@,
            r@[1]@ == "-d"@,
            r@[2]@ == "-p"@,
            r@[3]@ == "0:"@ + dec_str(job.app_port as nat),
            r@[4]@ == "--name"@,
            r@[5]@ == container_name@,
            r@[6]@ == "--label"@,
            r@[7]@ == "nimble.app="@ + job.app@,
            r@[8]@ == "--label"@,
            r@[9]@ == "nimble.deploy_id="@ + id_str(job.deploy_id),
            r@[10]@ == job.image_reference@,
    {
        let mut args: Vec<String> = Vec::new();
        args.push("run".to_owned());
        args.push("-d".to_owned());
        args.push("-p".to_owned());
        let mut publish = "0:".to_owned();
        append_dec(&mut publish, job.app_port as u64);
        args.push(publish);
        args.push("--name".to_owned());
        args.push(container_name.to_owned());
        args.push("--label".to_owned());
        let mut app_label = "nimble.app=".to_owned();
        app_label.append(job.app.as_str());
        args.push(app_label);
        args.push("--label".to_owned());
        let mut id_label = "nimble.deploy_id=".to_owned();
        let id = format_id(job.deploy_id);
        id_label.append(id.as_str());
        args.push(id_label);
        args.push(job.image_reference.clone());
        args
    }

    /// Reads the container id from the run command's outcome: its
    /// trimmed standard output, which must be non-empty.
    pub fn interpret_run_output(&self, success: bool, stdout: &str) -> (r: Result<
        String,
        RunOutputError,
    >)
        ensures
            !success ==> r == Err::<String, RunOutputError>(RunOutputError::EngineFailed),
            success && trimmed(stdout@).len() == 0 ==> r == Err::<String, RunOutputError>(
                RunOutputError::NoContainerId,
            ),
            success && trimmed(stdout@).len() > 0 ==> (r matches Ok(c) && c@ == trimmed(stdout@)),
    {
        if !success {
            return Err(RunOutputError::EngineFailed);
        }
        let t = trim(stdout);
        if t.unicode_len() == 0 {
            Err(RunOutputError::NoContainerId)
        } else {
            Ok(t.to_owned())
        }
    }

    /// The served address for a discovered host port.
    pub fn address_for(&self, host_port: &str) -> (r: String)
        ensures
            r@ == "http://127.0.0.1:"@ + host_port@,
    {
        let mut out = "http://127.0.0.1:".to_owned();
        out.append(host_port);
        out
    }

    /// Reads the published host port from the engine's port-mapping
    /// output: on the first line holding a colon, the trimmed text
    /// after the last colon.
    pub fn parse_host_port(&self, stdout: &str) -> (r: Option<String>)
        ensures
            match host_port_of(stdout@) {
                Some(p) => (r matches Some(x) && x@ == p),
                None => r is None,
            },
    {
        let len = stdout.unicode_len();
        let mut pos: usize = 0;
        proof {
            assert(stdout@.subrange(0, len as int) =~= stdout@);
        }
        loop
            invariant
                0 <= pos <= len,
                len == stdout@.len(),
                host_port_of(stdout@) == host_port_of(stdout@.subrange(pos as int, len as int)),
            decreases len - pos,
        {
            let ghost suffix = stdout@.subrange(pos as int, len as int);
            let l = find_char(stdout, pos, '\n');
            proof {
                assert(first_idx(suffix, '\n') == l - pos) by {
                    assert(forall|j: int| 0 <= j < l - pos ==> suffix[j] == stdout@[j + pos]);
                    if l < len {
                        assert(suffix[l - pos] == stdout@[l as int]);
                    }
                    lemma_first_idx_at(suffix, l - pos, '\n');
                }
            }
            let ghost line = suffix.subrange(0, l - pos);
            proof {
                assert(line =~= stdout@.subrange(pos as int, l as int));
            }
            // scan the line backwards for its last colon
            let mut k: usize = l;
            while k > pos && stdout.get_char(k - 1) != ':'
                invariant
                    pos <= k <= l <= len,
                    len == stdout@.len(),
                    forall|j: int| k <= j < l ==> stdout@[j] != ':',
                decreases k,
            {
                k -= 1;
            }
            if k > pos {
                // the last colon of the line sits at k - 1
                proof {
                    assert(stdout@[k - 1] == ':');
                    assert(last_idx(line, ':') == k - 1 - pos) by {
                        assert(forall|j: int|
                            k - 1 - pos < j < line.len() ==> line[j] == stdout@[j + pos]);
                        assert(line[k - 1 - pos] == stdout@[k - 1]);
                        lemma_last_idx_at(line, k - 1 - pos, ':');
                    }
                }
                let piece = stdout.substring_char(k, l);
                let t = trim(piece);
                proof {
                    assert(piece@ =~= line.subrange(last_idx(line, ':') + 1, line.len() as int));
                    assert(host_port_of(suffix) == Some(trimmed(piece@)));
                }
                return Some(t.to_owned());
            }
            proof {
                assert(forall|j: int| 0 <= j < line.len() ==> line[j] != ':');
                lemma_last_idx_none(line, ':');
            }
            if l == len {
                proof {
                    assert(host_port_of(suffix) is None);
                }
                return None;
            }
            proof {
                assert(suffix.subrange(l - pos + 1, suffix.len() as int) =~= stdout@.subrange(
                    l + 1,
                    len as int,
                ));
                assert(host_port_of(suffix) == host_port_of(
                    stdout@.subrange(l + 1, len as int),
                ));
            }
            pos = l + 1;
        }
    }

    /// Promotes a successful deployment: records its container and
    /// address, marks it Running, and flips the app's active pointer
    /// to it.  This is the step that turns a recorded container into a
    /// Running deployment, so full container discipline is preserved.
    pub fn promote(
        &self,
        store: &mut Store,
        deploy_id: u128,
        app: &str,
        container_id: &str,
        container_name: &str,
        address: Option<String>,
        now: u64,
    ) -> (r: Result<(), StoreError>)
        requires
            old(store).wf(),
        ensures
            final(store).wf(),
            !old(store).has_deployment(deploy_id) ==> r == Err::<(), StoreError>(
                StoreError::NotFound,
            ) && *final(store) == *old(store),
            old(store).has_deployment(deploy_id) && old(store).deployment_of(deploy_id).status
                != DeployStatus::Deploying ==> r == Err::<(), StoreError>(
                StoreError::InvalidTransition,
            ) && *final(store) == *old(store),
            old(store).has_deployment(deploy_id) && old(store).deployment_of(deploy_id).status
                == DeployStatus::Deploying && old(store).deployment_of(deploy_id).container_id
                is Some ==> r == Err::<(), StoreError>(StoreError::AlreadySet) && *final(store)
                == *old(store),
            r is Ok ==> ({
                &&& final(store).has_deployment(deploy_id)
                &&& final(store).deployment_of(deploy_id).status == DeployStatus::Running
                &&& (final(store).deployment_of(deploy_id).container_id matches Some(c) && c@
                    == container_id@)
                &&& (final(store).deployment_of(deploy_id).container_name matches Some(c) && c@
                    == container_name@)
                &&& final(store).deployment_of(deploy_id).address == address
                &&& final(store).has_app(app@)
                &&& final(store).app_of(app@).active_deployment_id == Some(deploy_id)
            }),
            old(store).has_deployment(deploy_id) && old(store).deployment_of(deploy_id).status
                == DeployStatus::Deploying && old(store).deployment_of(deploy_id).container_id
                is None && old(store).has_build(old(store).deployment_of(deploy_id).build_id)
                && old(store).build_of(old(store).deployment_of(deploy_id).build_id).status
                == crate::status::BuildStatus::Success && old(store).has_app(app@) ==> r is Ok,
            old(store).container_iff_ran() && r is Ok ==> final(store).container_iff_ran(),
    {
        match store.set_deployment_container(deploy_id, container_id, container_name, address, now) {
            Ok(()) => {},
            Err(e) => {
                return Err(e);
            },
        }
        match store.update_deployment_status(deploy_id, DeployStatus::Running, now) {
            Ok(()) => {},
            Err(e) => {
                return Err(e);
            },
        }
        let ghost mid = *store;
        match store.set_active_deployment(app, Some(deploy_id), now) {
            Ok(()) => {},
            Err(e) => {
                return Err(e);
            },
        }
        proof {
            assert(store.deployments() == mid.deployments());
            assert(store.has_deployment(deploy_id));
            assert(store.deployment_of(deploy_id) == mid.deployment_of(deploy_id));
            if old(store).container_iff_ran() {
                assert forall|i: int| 0 <= i < store.deployments().len() implies ((
                #[trigger] store.deployments()[i].container_id is Some) <==> (
                store.deployments()[i].status == DeployStatus::Running
                    || store.deployments()[i].status == DeployStatus::Stopped)) by {
                    let di = crate::store::du_idx(old(store).deployments(), deploy_id);
                    if i != di {
                        assert(store.deployments()[i] == old(store).deployments()[i]);
                    }
                }
            }
        }
        Ok(())
    }

    /// Records a failed deployment.
    pub fn fail_deploy(&self, store: &mut Store, deploy_id: u128, now: u64) -> (r: Result<
        (),
        StoreError,
    >)
        requires
            old(store).wf(),
        ensures
            final(store).wf(),
            old(store).container_iff_ran() ==> final(store).container_iff_ran(),
            !old(store).has_deployment(deploy_id) ==> r == Err::<(), StoreError>(
                StoreError::NotFound,
            ) && *final(store) == *old(store),
            old(store).has_deployment(deploy_id) && old(store).deployment_of(
                deploy_id,
            ).status.can_step(DeployStatus::Failed) ==> r == Ok::<(), StoreError>(()) && final(store).has_deployment(deploy_id) && final(store).deployment_of(deploy_id).status
                == DeployStatus::Failed,
    {
        store.update_deployment_status(deploy_id, DeployStatus::Failed, now)
    }
}

/// What the port lookup reads from the engine's output: on the first
/// line holding a colon, the trimmed text after its last colon.
pub open spec fn host_port_of(s: Seq<char>) -> Option<Seq<char>>
    decreases s.len(),
    via host_port_of_decreases
{
    let l = first_idx(s, '\n');
    let line = s.subrange(0, l);
    if last_idx(line, ':') >= 0 {
        Some(trimmed(line.subrange(last_idx(line, ':') + 1, line.len() as int)))
    } else if l == s.len() {
        None
    } else {
        host_port_of(s.subrange(l + 1, s.len() as int))
    }
}

#[via_fn]
proof fn host_port_of_decreases(s: Seq<char>) {
    lemma_first_idx_bounds(s, '\n');
}

/// A sequence without the character has no last occurrence of it.
proof fn lemma_last_idx_none(s: Seq<char>, c: char)
    requires
        forall|j: int| 0 <= j < s.len() ==> s[j] != c,
    ensures
        last_idx(s, c) == -1,
{
    lemma_last_idx_at(s, -1, c);
}

} // verus!
