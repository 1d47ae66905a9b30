//! The store: the durable record of builds, deployments and apps.
//!
//! Records live in insertion order; every mutation advances a logical
//! clock that stamps `created_at` and `updated_at`, so insertion order
//! is also timestamp order and listings serve newest first.  The store
//! enforces the lifecycle invariants: build and deployment statuses
//! move only along their state machines, a Running deployment always
//! has a Success parent build, a Running or Stopped deployment always
//! has a container recorded, and ids are unique.

use crate::status::{BuildStatus, DeployStatus};
use crate::text::str_eq;
use vstd::prelude::*;

verus! {

/// One submitted archive and its image-production attempt.
#[derive(Debug, Clone, Copy, PartialEq, Eq, Structural)]
pub struct BuildRecord {
    pub id: u128,
    pub status: BuildStatus,
    pub created_at: u64,
    pub updated_at: u64,
}

/// One attempt to run a built image as a container, bound to an app.
#[derive(Debug, Clone)]
pub struct DeploymentRecord {
    pub id: u128,
    pub build_id: u128,
    pub app: String,
    pub image: String,
    pub status: DeployStatus,
    pub container_id: Option<String>,
    pub container_name: Option<String>,
    pub address: Option<String>,
    pub created_at: u64,
    pub updated_at: u64,
}

/// A logical application: a name grouping successive deployments.
#[derive(Debug, Clone)]
pub struct AppRecord {
    pub name: String,
    pub active_deployment_id: Option<u128>,
    pub created_at: u64,
    pub updated_at: u64,
}

/// Why a store operation was refused.
#[derive(Debug, Clone, Copy, PartialEq, Eq, Structural)]
pub enum StoreError {
    /// No record has the given id or name.
    NotFound,
    /// A record with the given id already exists.
    IdCollision,
    /// The requested status is not reachable from the current one.
    InvalidTransition,
    /// A deployment must be created Queued.
    InvalidStatus,
    /// A deployment cannot run while its parent build is not Success.
    ParentNotSuccess,
    /// A deployment cannot run before its container is recorded.
    NoContainer,
    /// The container of a deployment is recorded exactly once.
    AlreadySet,
    /// Only a Running deployment can become an app's active one.
    NotRunning,
}

/// The durable state: builds, deployments and apps in insertion order,
/// plus the logical clock that stamps every mutation.
pub struct Store {
    builds: Vec<BuildRecord>,
    deployments: Vec<DeploymentRecord>,
    apps: Vec<AppRecord>,
    clock: u64,
}

// ---- Spec helpers over record sequences -------------------------------

/// Build ids are unique.
pub open spec fn bu_unique(s: Seq<BuildRecord>) -> bool {
    forall|i: int, j: int| 0 <= i < s.len() && 0 <= j < s.len() && s[i].id == s[j].id ==> i == j
}

/// Some build has this id.
pub open spec fn bu_has(s: Seq<BuildRecord>, id: u128) -> bool {
    exists|i: int| 0 <= i < s.len() && s[i].id == id
}

/// The index of the build with this id.
pub open spec fn bu_idx(s: Seq<BuildRecord>, id: u128) -> int {
    choose|i: int| 0 <= i < s.len() && s[i].id == id
}

/// The build record with this id.
pub open spec fn bu_at(s: Seq<BuildRecord>, id: u128) -> BuildRecord {
    s[bu_idx(s, id)]
}

/// Deployment ids are unique.
pub open spec fn du_unique(s: Seq<DeploymentRecord>) -> bool {
    forall|i: int, j: int| 0 <= i < s.len() && 0 <= j < s.len() && s[i].id == s[j].id ==> i == j
}

/// Some deployment has this id.
pub open spec fn du_has(s: Seq<DeploymentRecord>, id: u128) -> bool {
    exists|i: int| 0 <= i < s.len() && s[i].id == id
}

/// The index of the deployment with this id.
pub open spec fn du_idx(s: Seq<DeploymentRecord>, id: u128) -> int {
    choose|i: int| 0 <= i < s.len() && s[i].id == id
}

/// The deployment record with this id.
pub open spec fn du_at(s: Seq<DeploymentRecord>, id: u128) -> DeploymentRecord {
    s[du_idx(s, id)]
}

/// App names are unique.
pub open spec fn au_unique(s: Seq<AppRecord>) -> bool {
    forall|i: int, j: int| 0 <= i < s.len() && 0 <= j < s.len() && s[i].name@ == s[j].name@ ==> i
        == j
}

/// Some app has this name.
pub open spec fn au_has(s: Seq<AppRecord>, name: Seq<char>) -> bool {
    exists|i: int| 0 <= i < s.len() && s[i].name@ == name
}

/// The index of the app with this name.
pub open spec fn au_idx(s: Seq<AppRecord>, name: Seq<char>) -> int {
    choose|i: int| 0 <= i < s.len() && s[i].name@ == name
}

/// The app record with this name.
pub open spec fn au_at(s: Seq<AppRecord>, name: Seq<char>) -> AppRecord {
    s[au_idx(s, name)]
}

impl Store {
    /// The build records, oldest first.
    pub closed spec fn builds(self) -> Seq<BuildRecord> {
        self.builds@
    }

    /// The deployment records, oldest first.
    pub closed spec fn deployments(self) -> Seq<DeploymentRecord> {
        self.deployments@
    }

    /// The app records, oldest first.
    pub closed spec fn apps(self) -> Seq<AppRecord> {
        self.apps@
    }

    /// The logical clock: at least every timestamp ever written.
    pub closed spec fn clock(self) -> u64 {
        self.clock
    }

    /// The timestamp a mutation at wall time `now` writes: the clock
    /// never runs backwards.
    pub open spec fn tick(self, now: u64) -> u64 {
        if now > self.clock() {
            now
        } else {
            self.clock()
        }
    }

    pub open spec fn has_build(self, id: u128) -> bool {
        bu_has(self.builds(), id)
    }

    pub open spec fn build_of(self, id: u128) -> BuildRecord {
        bu_at(self.builds(), id)
    }

    pub open spec fn has_deployment(self, id: u128) -> bool {
        du_has(self.deployments(), id)
    }

    pub open spec fn deployment_of(self, id: u128) -> DeploymentRecord {
        du_at(self.deployments(), id)
    }

    pub open spec fn has_app(self, name: Seq<char>) -> bool {
        au_has(self.apps(), name)
    }

    pub open spec fn app_of(self, name: Seq<char>) -> AppRecord {
        au_at(self.apps(), name)
    }

    /// Ids and names are unique keys.
    pub open spec fn keys_unique(self) -> bool {
        &&& bu_unique(self.builds())
        &&& du_unique(self.deployments())
        &&& au_unique(self.apps())
    }

    /// Every timestamp lies within the clock, and no record was
    /// updated before it was created.
    pub open spec fn stamps_ok(self) -> bool {
        &&& forall|i: int|
            0 <= i < self.builds().len() ==> (#[trigger] self.builds()[i]).created_at
                <= self.builds()[i].updated_at <= self.clock()
        &&& forall|i: int|
            0 <= i < self.deployments().len() ==> (#[trigger] self.deployments()[i]).created_at
                <= self.deployments()[i].updated_at <= self.clock()
        &&& forall|i: int|
            0 <= i < self.apps().len() ==> (#[trigger] self.apps()[i]).created_at
                <= self.apps()[i].updated_at <= self.clock()
    }

    /// Creation timestamps never decrease along insertion order.
    pub open spec fn order_ok(self) -> bool {
        &&& forall|i: int, j: int|
            0 <= i <= j < self.builds().len() ==> self.builds()[i].created_at
                <= self.builds()[j].created_at
        &&& forall|i: int, j: int|
            0 <= i <= j < self.deployments().len() ==> self.deployments()[i].created_at
                <= self.deployments()[j].created_at
    }

    /// No deployment is Running while its parent build is not Success.
    pub open spec fn coupling_ok(self) -> bool {
        forall|i: int|
            0 <= i < self.deployments().len() && #[trigger] self.deployments()[i].status
                == DeployStatus::Running ==> self.has_build(self.deployments()[i].build_id)
                && self.build_of(self.deployments()[i].build_id).status == BuildStatus::Success
    }

    /// A Running or Stopped deployment has a container recorded, and a
    /// recorded container means the deployment left Queued.
    pub open spec fn container_ok(self) -> bool {
        &&& forall|i: int|
            0 <= i < self.deployments().len() && (#[trigger] self.deployments()[i].status
                == DeployStatus::Running || self.deployments()[i].status == DeployStatus::Stopped)
                ==> self.deployments()[i].container_id is Some
        &&& forall|i: int|
            0 <= i < self.deployments().len() && #[trigger] self.deployments()[i].container_id
                is Some ==> self.deployments()[i].status != DeployStatus::Queued
    }

    /// An active pointer names an existing deployment.
    pub open spec fn active_ok(self) -> bool {
        forall|i: int|
            0 <= i < self.apps().len() ==> (#[trigger] self.apps()[i].active_deployment_id matches
                Some(d) ==> self.has_deployment(d))
    }

    /// Well-formedness: unique keys, timestamps within the clock and
    /// non-decreasing in insertion order, every Running deployment has
    /// a Success parent build, container discipline, and active
    /// pointers that refer to existing deployments.
    pub open spec fn wf(self) -> bool {
        &&& self.keys_unique()
        &&& self.stamps_ok()
        &&& self.order_ok()
        &&& self.coupling_ok()
        &&& self.container_ok()
        &&& self.active_ok()
    }

    /// Container discipline in full: a deployment has a container
    /// recorded exactly when it is Running or Stopped.  This holds of
    /// every state the workers leave behind; recording the container
    /// is the one step that precedes the switch to Running.
    pub open spec fn container_iff_ran(self) -> bool {
        forall|i: int|
            0 <= i < self.deployments().len() ==> ((#[trigger] self.deployments()[i].container_id
                is Some) <==> (self.deployments()[i].status == DeployStatus::Running
                || self.deployments()[i].status == DeployStatus::Stopped))
    }

    /// An empty store.
    pub fn new() -> (s: Store)
        ensures
            s.wf(),
            s.container_iff_ran(),
            s.builds() == Seq::<BuildRecord>::empty(),
            s.deployments() == Seq::<DeploymentRecord>::empty(),
            s.apps() == Seq::<AppRecord>::empty(),
            s.clock() == 0,
    {
        Store { builds: Vec::new(), deployments: Vec::new(), apps: Vec::new(), clock: 0 }
    }

    fn find_build(&self, id: u128) -> (r: Option<usize>)
        ensures
            match r {
                Some(i) => 0 <= i < self.builds().len() && self.builds()[i as int].id == id,
                None => !self.has_build(id),
            },
    {
        let mut i: usize = 0;
        while i < self.builds.len()
            invariant
                0 <= i <= self.builds().len(),
                forall|j: int| 0 <= j < i ==> self.builds()[j].id != id,
            decreases self.builds().len() - i,
        {
            if self.builds[i].id == id {
                return Some(i);
            }
            i += 1;
        }
        None
    }

    fn find_deployment(&self, id: u128) -> (r: Option<usize>)
        ensures
            match r {
                Some(i) => 0 <= i < self.deployments().len() && self.deployments()[i as int].id
                    == id,
                None => !self.has_deployment(id),
            },
    {
        let mut i: usize = 0;
        while i < self.deployments.len()
            invariant
                0 <= i <= self.deployments().len(),
                forall|j: int| 0 <= j < i ==> self.deployments()[j].id != id,
            decreases self.deployments().len() - i,
        {
            if self.deployments[i].id == id {
                return Some(i);
            }
            i += 1;
        }
        None
    }

    fn find_app(&self, name: &str) -> (r: Option<usize>)
        ensures
            match r {
                Some(i) => 0 <= i < self.apps().len() && self.apps()[i as int].name@ == name@,
                None => !self.has_app(name@),
            },
    {
        let mut i: usize = 0;
        while i < self.apps.len()
            invariant
                0 <= i <= self.apps().len(),
                forall|j: int| 0 <= j < i ==> self.apps()[j].name@ != name@,
            decreases self.apps().len() - i,
        {
            if str_eq(self.apps[i].name.as_str(), name) {
                return Some(i);
            }
            i += 1;
        }
        None
    }

    fn advance_clock(&mut self, now: u64) -> (t: u64)
        ensures
            t == old(self).tick(now),
            final(self).clock() == t,
            final(self).builds() == old(self).builds(),
            final(self).deployments() == old(self).deployments(),
            final(self).apps() == old(self).apps(),
    {
        if now > self.clock {
            self.clock = now;
        }
        self.clock
    }

    /// Records a new build.  Fails if the id collides; otherwise the
    /// record is appended with both timestamps at the advanced clock.
    pub fn create_build(&mut self, id: u128, status: BuildStatus, now: u64) -> (r: Result<
        (),
        StoreError,
    >)
        requires
            old(self).wf(),
        ensures
            final(self).wf(),
            old(self).has_build(id) ==> r == Err::<(), StoreError>(StoreError::IdCollision)
                && *final(self) == *old(self),
            !old(self).has_build(id) ==> r == Ok::<(), StoreError>(()) && final(self).builds()
                == old(self).builds().push(
                BuildRecord {
                    id,
                    status,
                    created_at: old(self).tick(now),
                    updated_at: old(self).tick(now),
                },
            ) && final(self).clock() == old(self).tick(now),
            final(self).deployments() == old(self).deployments(),
            final(self).apps() == old(self).apps(),
            old(self).container_iff_ran() ==> final(self).container_iff_ran(),
            r is Ok ==> final(self).has_build(id) && final(self).build_of(id).status == status,
    {
        if self.find_build(id).is_some() {
            return Err(StoreError::IdCollision);
        }
        let t = self.advance_clock(now);
        let rec = BuildRecord { id, status, created_at: t, updated_at: t };
        self.builds.push(rec);
        proof {
            let olds = old(self).builds();
            let s = self.builds();
            assert(s == olds.push(rec));
            assert forall|i: int, j: int|
                0 <= i < s.len() && 0 <= j < s.len() && s[i].id == s[j].id implies i == j by {
                if i < s.len() - 1 && j < s.len() - 1 {
                } else if i == s.len() - 1 && j < s.len() - 1 {
                    assert(s[j].id != id);
                } else if j == s.len() - 1 && i < s.len() - 1 {
                    assert(s[i].id != id);
                }
            }
            assert(s[s.len() - 1].id == id);
            assert(bu_has(s, id));
            let w = bu_idx(s, id);
            assert(0 <= w < s.len() && s[w].id == id);
            assert(w == s.len() - 1);
            assert forall|di: int|
                0 <= di < self.deployments().len() && #[trigger] self.deployments()[di].status
                    == DeployStatus::Running implies self.has_build(
                self.deployments()[di].build_id,
            ) && self.build_of(self.deployments()[di].build_id).status
                == BuildStatus::Success by {
                let bid = self.deployments()[di].build_id;
                let k = bu_idx(olds, bid);
                assert(0 <= k < olds.len() && olds[k].id == bid);
                assert(s[k] == olds[k]);
                assert(bu_has(s, bid));
                let k2 = bu_idx(s, bid);
                assert(0 <= k2 < s.len() && s[k2].id == bid);
                assert(k2 == k);
            }
            assert(forall|a: int| 0 <= a < olds.len() ==> s[a] == olds[a]);
            assert(forall|a: int, b: int|
                0 <= a <= b < s.len() ==> s[a].created_at <= s[b].created_at);
            assert(forall|a: int|
                0 <= a < s.len() ==> #[trigger] s[a].created_at <= s[a].updated_at
                    <= self.clock());
            assert(self.deployments() == old(self).deployments());
            assert(forall|a: int|
                0 <= a < self.deployments().len() ==> #[trigger] self.deployments()[a].created_at
                    <= self.deployments()[a].updated_at <= self.clock());
            assert(self.apps() == old(self).apps());
            assert forall|a: int|
                0 <= a < self.apps().len() implies #[trigger] self.apps()[a].created_at
                    <= self.apps()[a].updated_at <= self.clock() by {
                assert(old(self).apps()[a].created_at <= old(self).apps()[a].updated_at <= old(
                    self,
                ).clock());
            }
            assert(self.keys_unique());
            assert(self.stamps_ok()) by {
                assert(forall|i: int|
                    0 <= i < self.builds().len() ==> #[trigger] self.builds()[i].created_at
                        <= self.builds()[i].updated_at <= self.clock());
                assert(forall|i: int|
                    0 <= i < self.deployments().len()
                        ==> #[trigger] self.deployments()[i].created_at
                        <= self.deployments()[i].updated_at <= self.clock());
                assert(forall|i: int|
                    0 <= i < self.apps().len() ==> #[trigger] self.apps()[i].created_at
                        <= self.apps()[i].updated_at <= self.clock());
            }
            assert(self.order_ok());
            assert(self.coupling_ok());
            assert(self.container_ok());
            assert(self.active_ok());
            assert(self.wf());
        }
        Ok(())
    }

    /// Looks a build up by id.
    pub fn get_build(&self, id: u128) -> (r: Option<BuildRecord>)
        requires
            self.wf(),
        ensures
            self.has_build(id) ==> r == Some(self.build_of(id)),
            !self.has_build(id) ==> r is None,
    {
        match self.find_build(id) {
            Some(i) => {
                proof {
                    assert(bu_idx(self.builds(), id) == i as int);
                }
                Some(self.builds[i])
            },
            None => None,
        }
    }

    /// Moves a build along its state machine.  Fails if the build is
    /// unknown or the step is not allowed; a repeated write of the
    /// current status is allowed and only touches `updated_at`.  A
    /// build in Success or Failed never changes status again.
    #[verifier::rlimit(60)]
    pub fn update_build_status(&mut self, id: u128, status: BuildStatus, now: u64) -> (r: Result<
        (),
        StoreError,
    >)
        requires
            old(self).wf(),
        ensures
            final(self).wf(),
            !old(self).has_build(id) ==> r == Err::<(), StoreError>(StoreError::NotFound)
                && *final(self) == *old(self),
            old(self).has_build(id) && !old(self).build_of(id).status.can_step(status) ==> r
                == Err::<(), StoreError>(StoreError::InvalidTransition) && *final(self) == *old(
                self,
            ),
            old(self).has_build(id) && old(self).build_of(id).status.can_step(status) ==> r
                == Ok::<(), StoreError>(()) && final(self).builds() == old(self).builds().update(
                bu_idx(old(self).builds(), id),
                BuildRecord {
                    id,
                    status,
                    created_at: old(self).build_of(id).created_at,
                    updated_at: old(self).tick(now),
                },
            ) && final(self).has_build(id) && final(self).build_of(id).status == status,
            final(self).deployments() == old(self).deployments(),
            final(self).apps() == old(self).apps(),
            old(self).container_iff_ran() ==> final(self).container_iff_ran(),
            forall|other: u128|
                other != id ==> #[trigger] final(self).has_build(other) == old(self).has_build(
                    other,
                ) && (old(self).has_build(other) ==> final(self).build_of(other) == old(
                    self,
                ).build_of(other)),
    {
        let i = match self.find_build(id) {
            Some(i) => i,
            None => {
                return Err(StoreError::NotFound);
            },
        };
        proof {
            assert(bu_idx(self.builds(), id) == i as int);
        }
        let current = self.builds[i].status;
        let allowed = current == status || (current == BuildStatus::Queued && status
            == BuildStatus::Building) || (current == BuildStatus::Building && (status
            == BuildStatus::Success || status == BuildStatus::Failed));
        if !allowed {
            return Err(StoreError::InvalidTransition);
        }
        let t = self.advance_clock(now);
        let created = self.builds[i].created_at;
        self.builds.set(i, BuildRecord { id, status, created_at: created, updated_at: t });
        proof {
            let olds = old(self).builds();
            let news = self.builds();
            assert(news == olds.update(i as int, self.builds()[i as int]));
            assert(bu_unique(news));
            assert(bu_idx(news, id) == i as int);
            assert forall|other: u128| other != id implies #[trigger] self.has_build(other) == old(
                self,
            ).has_build(other) && (old(self).has_build(other) ==> self.build_of(other) == old(
                self,
            ).build_of(other)) by {
                if old(self).has_build(other) {
                    let k = bu_idx(olds, other);
                    assert(0 <= k < olds.len() && olds[k].id == other);
                    assert(news[k].id == other);
                    assert(bu_has(news, other));
                    let k2 = bu_idx(news, other);
                    assert(0 <= k2 < news.len() && news[k2].id == other);
                    assert(k2 == k);
                }
                if self.has_build(other) {
                    let k = bu_idx(news, other);
                    assert(0 <= k < news.len() && news[k].id == other);
                    assert(olds[k].id == other);
                    assert(bu_has(olds, other));
                }
            }
            assert forall|di: int|
                0 <= di < self.deployments().len() && #[trigger] self.deployments()[di].status
                    == DeployStatus::Running implies self.has_build(
                self.deployments()[di].build_id,
            ) && self.build_of(self.deployments()[di].build_id).status
                == BuildStatus::Success by {
                let bid = self.deployments()[di].build_id;
                let k = bu_idx(olds, bid);
                assert(0 <= k < olds.len() && olds[k].id == bid);
                assert(news[k].id == bid);
                assert(bu_has(news, bid));
                let k2 = bu_idx(news, bid);
                assert(0 <= k2 < news.len() && news[k2].id == bid);
                assert(k2 == k);
                if bid == id {
                    assert(old(self).build_of(id).status == BuildStatus::Success);
                    assert(status == BuildStatus::Success);
                }
            }
            assert(forall|a: int, b: int|
                0 <= a <= b < news.len() ==> news[a].created_at <= news[b].created_at) by {
                assert(forall|a: int| 0 <= a < news.len() ==> news[a].created_at == olds[a].created_at);
            }
            assert(forall|a: int|
                0 <= a < news.len() ==> #[trigger] news[a].created_at <= news[a].updated_at
                    <= self.clock());
            assert(self.deployments() == old(self).deployments());
            assert(forall|a: int|
                0 <= a < self.deployments().len() ==> #[trigger] self.deployments()[a].created_at
                    <= self.deployments()[a].updated_at <= self.clock());
            assert(self.apps() == old(self).apps());
            assert forall|a: int|
                0 <= a < self.apps().len() implies #[trigger] self.apps()[a].created_at
                    <= self.apps()[a].updated_at <= self.clock() by {
                assert(old(self).apps()[a].created_at <= old(self).apps()[a].updated_at <= old(
                    self,
                ).clock());
            }
            assert(self.keys_unique());
            assert(self.stamps_ok()) by {
                assert(forall|i: int|
                    0 <= i < self.builds().len() ==> #[trigger] self.builds()[i].created_at
                        <= self.builds()[i].updated_at <= self.clock());
                assert(forall|i: int|
                    0 <= i < self.deployments().len()
                        ==> #[trigger] self.deployments()[i].created_at
                        <= self.deployments()[i].updated_at <= self.clock());
                assert(forall|i: int|
                    0 <= i < self.apps().len() ==> #[trigger] self.apps()[i].created_at
                        <= self.apps()[i].updated_at <= self.clock());
            }
            assert(self.order_ok());
            assert(self.coupling_ok());
            assert(self.container_ok());
            assert(self.active_ok());
            assert(self.wf());
        }
        Ok(())
    }
    /// Lists builds, newest first, optionally filtered by status and
    /// truncated to a limit.
    pub fn list_builds(&self, limit: Option<usize>, status: Option<BuildStatus>) -> (r: Vec<
        BuildRecord,
    >)
        requires
            self.wf(),
        ensures
            ({
                let full = builds_desc(self.builds(), status);
                let n: int = match limit {
                    Some(l) => if l < full.len() {
                        l as int
                    } else {
                        full.len() as int
                    },
                    None => full.len() as int,
                };
                r@ == full.subrange(0, n)
            }),
    {
        let ghost full = builds_desc(self.builds(), status);
        let bound: usize = match limit {
            Some(l) => l,
            None => self.builds.len(),
        };
        let mut out: Vec<BuildRecord> = Vec::new();
        let mut i: usize = self.builds.len();
        proof {
            assert(self.builds().subrange(0, self.builds().len() as int) =~= self.builds());
        }
        while i > 0 && out.len() < bound
            invariant
                0 <= i <= self.builds().len(),
                out@.len() + i <= self.builds().len() || limit is Some,
                limit is None ==> bound == self.builds().len(),
                limit matches Some(l) ==> bound == l,
                out@.len() <= bound,
                full == builds_desc(self.builds(), status),
                full =~= out@ + builds_desc(self.builds().subrange(0, i as int), status),
            decreases i,
        {
            i -= 1;
            let b = self.builds[i];
            let matches_filter = match status {
                Some(st) => b.status == st,
                None => true,
            };
            proof {
                let pre = self.builds().subrange(0, i as int);
                let pre2 = self.builds().subrange(0, i as int + 1);
                assert(pre2.drop_last() =~= pre);
                assert(pre2.last() == b);
                if build_matches(b, status) {
                    assert(builds_desc(pre2, status) =~= seq![b] + builds_desc(pre, status));
                    assert((out@ + builds_desc(pre2, status)) =~= (out@.push(b) + builds_desc(
                        pre,
                        status,
                    )));
                } else {
                    assert(builds_desc(pre2, status) =~= builds_desc(pre, status));
                }
            }
            if matches_filter {
                out.push(b);
            }
        }
        proof {
            assert(out@ =~= full.subrange(0, out@.len() as int));
            if i == 0 {
                assert(self.builds().subrange(0, 0) =~= Seq::<BuildRecord>::empty());
                assert(out@ =~= full);
            }
        }
        out
    }

    /// Lists deployments, newest first, optionally those of one build.
    pub fn list_deployments(&self, build_id: Option<u128>) -> (r: Vec<DeploymentRecord>)
        requires
            self.wf(),
        ensures
            r@ == deps_desc(self.deployments(), build_id),
    {
        let mut out: Vec<DeploymentRecord> = Vec::new();
        let mut i: usize = self.deployments.len();
        proof {
            assert(self.deployments().subrange(0, self.deployments().len() as int)
                =~= self.deployments());
        }
        while i > 0
            invariant
                0 <= i <= self.deployments().len(),
                self.wf(),
                deps_desc(self.deployments(), build_id) =~= out@ + deps_desc(
                    self.deployments().subrange(0, i as int),
                    build_id,
                ),
            decreases i,
        {
            i -= 1;
            let matches_filter = match build_id {
                Some(bid) => self.deployments[i].build_id == bid,
                None => true,
            };
            proof {
                let pre = self.deployments().subrange(0, i as int);
                let pre2 = self.deployments().subrange(0, i as int + 1);
                assert(pre2.drop_last() =~= pre);
                assert(pre2.last() == self.deployments()[i as int]);
                if dep_matches(self.deployments()[i as int], build_id) {
                    assert(deps_desc(pre2, build_id) =~= seq![self.deployments()[i as int]]
                        + deps_desc(pre, build_id));
                    assert((out@ + deps_desc(pre2, build_id)) =~= (out@.push(
                        self.deployments()[i as int],
                    ) + deps_desc(pre, build_id)));
                } else {
                    assert(deps_desc(pre2, build_id) =~= deps_desc(pre, build_id));
                }
            }
            if matches_filter {
                let rec = clone_dep(&self.deployments[i]);
                out.push(rec);
            }
        }
        proof {
            assert(self.deployments().subrange(0, 0) =~= Seq::<DeploymentRecord>::empty());
            assert(out@ =~= deps_desc(self.deployments(), build_id));
        }
        out
    }

    /// Records a new deployment.  A deployment is always created
    /// Queued, with no container recorded yet.
    pub fn create_deployment(
        &mut self,
        id: u128,
        build_id: u128,
        app: &str,
        image: &str,
        status: DeployStatus,
        address: Option<String>,
        now: u64,
    ) -> (r: Result<(), StoreError>)
        requires
            old(self).wf(),
        ensures
            final(self).wf(),
            old(self).has_deployment(id) ==> r == Err::<(), StoreError>(StoreError::IdCollision)
                && *final(self) == *old(self),
            !old(self).has_deployment(id) && status != DeployStatus::Queued ==> r == Err::<
                (),
                StoreError,
            >(StoreError::InvalidStatus) && *final(self) == *old(self),
            !old(self).has_deployment(id) && status == DeployStatus::Queued ==> r == Ok::<
                (),
                StoreError,
            >(()) && ({
                let s = final(self).deployments();
                let rec = s.last();
                &&& s.drop_last() == old(self).deployments()
                &&& s.len() == old(self).deployments().len() + 1
                &&& rec.id == id
                &&& rec.build_id == build_id
                &&& rec.app@ == app@
                &&& rec.image@ == image@
                &&& rec.status == DeployStatus::Queued
                &&& rec.container_id is None
                &&& rec.container_name is None
                &&& rec.address == address
                &&& rec.created_at == old(self).tick(now)
                &&& rec.updated_at == old(self).tick(now)
                &&& final(self).clock() == old(self).tick(now)
                &&& final(self).has_deployment(id)
                &&& final(self).deployment_of(id) == rec
            }),
            final(self).builds() == old(self).builds(),
            final(self).apps() == old(self).apps(),
            old(self).container_iff_ran() && status == DeployStatus::Queued
                ==> final(self).container_iff_ran(),
    {
        if self.find_deployment(id).is_some() {
            return Err(StoreError::IdCollision);
        }
        if !matches!(status, DeployStatus::Queued) {
            return Err(StoreError::InvalidStatus);
        }
        let t = self.advance_clock(now);
        let rec = DeploymentRecord {
            id,
            build_id,
            app: app.to_owned(),
            image: image.to_owned(),
            status: DeployStatus::Queued,
            container_id: None,
            container_name: None,
            address,
            created_at: t,
            updated_at: t,
        };
        self.deployments.push(rec);
        proof {
            let olds = old(self).deployments();
            let s = self.deployments();
            assert(s.drop_last() =~= olds);
            assert forall|i: int, j: int|
                0 <= i < s.len() && 0 <= j < s.len() && s[i].id == s[j].id implies i == j by {
                if i == s.len() - 1 && j < s.len() - 1 {
                    assert(s[j].id != id);
                } else if j == s.len() - 1 && i < s.len() - 1 {
                    assert(s[i].id != id);
                }
            }
            assert(s[s.len() - 1].id == id);
            assert(du_has(s, id));
            let w = du_idx(s, id);
            assert(0 <= w < s.len() && s[w].id == id);
            assert(w == s.len() - 1);
            assert forall|ai: int| 0 <= ai < self.apps().len() implies (
            #[trigger] self.apps()[ai].active_deployment_id matches Some(d)
                ==> self.has_deployment(d)) by {
                let act = self.apps()[ai].active_deployment_id;
                if act is Some {
                    let d = act->Some_0;
                    let k = du_idx(olds, d);
                    assert(0 <= k < olds.len() && olds[k].id == d);
                    assert(s[k].id == d);
                    assert(du_has(s, d));
                }
            }
            assert(forall|a: int| 0 <= a < olds.len() ==> s[a] == olds[a]);
            assert forall|k: int|
                0 <= k < s.len() && #[trigger] s[k].status == DeployStatus::Running implies
                self.has_build(s[k].build_id) && self.build_of(s[k].build_id).status
                    == BuildStatus::Success by {
                assert(k < olds.len());
                assert(s[k] == olds[k]);
            }
            assert(forall|a: int, b: int|
                0 <= a <= b < s.len() ==> s[a].created_at <= s[b].created_at);
            assert(forall|a: int|
                0 <= a < s.len() ==> #[trigger] s[a].created_at <= s[a].updated_at
                    <= self.clock());
            assert(self.builds() == old(self).builds());
            assert(forall|a: int|
                0 <= a < self.builds().len() ==> #[trigger] self.builds()[a].created_at
                    <= self.builds()[a].updated_at <= self.clock());
            assert(self.apps() == old(self).apps());
            assert forall|a: int|
                0 <= a < self.apps().len() implies #[trigger] self.apps()[a].created_at
                    <= self.apps()[a].updated_at <= self.clock() by {
                assert(old(self).apps()[a].created_at <= old(self).apps()[a].updated_at <= old(
                    self,
                ).clock());
            }
            assert(self.keys_unique());
            assert(self.stamps_ok()) by {
                assert(forall|i: int|
                    0 <= i < self.builds().len() ==> #[trigger] self.builds()[i].created_at
                        <= self.builds()[i].updated_at <= self.clock());
                assert(forall|i: int|
                    0 <= i < self.deployments().len()
                        ==> #[trigger] self.deployments()[i].created_at
                        <= self.deployments()[i].updated_at <= self.clock());
                assert(forall|i: int|
                    0 <= i < self.apps().len() ==> #[trigger] self.apps()[i].created_at
                        <= self.apps()[i].updated_at <= self.clock());
            }
            assert(self.order_ok());
            assert(self.coupling_ok());
            assert(self.container_ok());
            assert(self.active_ok());
            assert(self.wf());
        }
        Ok(())
    }

    /// Looks a deployment up by id.
    pub fn get_deployment(&self, id: u128) -> (r: Option<DeploymentRecord>)
        requires
            self.wf(),
        ensures
            self.has_deployment(id) ==> r == Some(self.deployment_of(id)),
            !self.has_deployment(id) ==> r is None,
    {
        match self.find_deployment(id) {
            Some(i) => {
                proof {
                    assert(du_idx(self.deployments(), id) == i as int);
                }
                Some(clone_dep(&self.deployments[i]))
            },
            None => None,
        }
    }

    /// Moves a deployment along its state machine.  A deployment can
    /// become Running only when its parent build is Success and its
    /// container is recorded; writing the current status again is
    /// allowed and only touches `updated_at`.
    #[verifier::rlimit(60)]
    pub fn update_deployment_status(&mut self, id: u128, status: DeployStatus, now: u64) -> (r:
        Result<(), StoreError>)
        requires
            old(self).wf(),
        ensures
            final(self).wf(),
            !old(self).has_deployment(id) ==> r == Err::<(), StoreError>(StoreError::NotFound)
                && *final(self) == *old(self),
            old(self).has_deployment(id) && !old(self).deployment_of(id).status.can_step(status)
                ==> r == Err::<(), StoreError>(StoreError::InvalidTransition) && *final(self)
                == *old(self),
            old(self).has_deployment(id) && old(self).deployment_of(id).status.can_step(status)
                && status == DeployStatus::Running && !(old(self).has_build(
                old(self).deployment_of(id).build_id,
            ) && old(self).build_of(old(self).deployment_of(id).build_id).status
                == BuildStatus::Success) ==> r == Err::<(), StoreError>(StoreError::ParentNotSuccess)
                && *final(self) == *old(self),
            old(self).has_deployment(id) && old(self).deployment_of(id).status.can_step(status)
                && status == DeployStatus::Running && old(self).has_build(
                old(self).deployment_of(id).build_id,
            ) && old(self).build_of(old(self).deployment_of(id).build_id).status
                == BuildStatus::Success && old(self).deployment_of(id).container_id is None ==> r
                == Err::<(), StoreError>(StoreError::NoContainer) && *final(self) == *old(self),
            old(self).has_deployment(id) && old(self).deployment_of(id).status.can_step(status) && (
            status == DeployStatus::Running ==> old(self).has_build(
                old(self).deployment_of(id).build_id,
            ) && old(self).build_of(old(self).deployment_of(id).build_id).status
                == BuildStatus::Success && old(self).deployment_of(id).container_id is Some) ==> r
                == Ok::<(), StoreError>(()) && ({
                let i = du_idx(old(self).deployments(), id);
                let prev = old(self).deployment_of(id);
                let s = final(self).deployments();
                &&& s.len() == old(self).deployments().len()
                &&& forall|k: int| 0 <= k < s.len() && k != i ==> s[k] == old(self).deployments()[k]
                &&& s[i].id == id
                &&& s[i].build_id == prev.build_id
                &&& s[i].app == prev.app
                &&& s[i].image == prev.image
                &&& s[i].status == status
                &&& s[i].container_id == prev.container_id
                &&& s[i].container_name == prev.container_name
                &&& s[i].address == prev.address
                &&& s[i].created_at == prev.created_at
                &&& s[i].updated_at == old(self).tick(now)
                &&& final(self).has_deployment(id)
                &&& final(self).deployment_of(id) == s[i]
            }),
            final(self).builds() == old(self).builds(),
            final(self).apps() == old(self).apps(),
            old(self).container_iff_ran() ==> final(self).container_iff_ran(),
    {
        let i = match self.find_deployment(id) {
            Some(i) => i,
            None => {
                return Err(StoreError::NotFound);
            },
        };
        proof {
            assert(du_idx(self.deployments(), id) == i as int);
        }
        let current = self.deployments[i].status;
        let allowed = current == status || (current == DeployStatus::Queued && status
            == DeployStatus::Deploying) || (current == DeployStatus::Deploying && (status
            == DeployStatus::Running || status == DeployStatus::Failed)) || (current
            == DeployStatus::Running && status == DeployStatus::Stopped);
        if !allowed {
            return Err(StoreError::InvalidTransition);
        }
        if status == DeployStatus::Running {
            let parent_ok = match self.find_build(self.deployments[i].build_id) {
                Some(b) => {
                    proof {
                        assert(bu_idx(self.builds(), self.deployments()[i as int].build_id)
                            == b as int);
                    }
                    self.builds[b].status == BuildStatus::Success
                },
                None => false,
            };
            if !parent_ok {
                return Err(StoreError::ParentNotSuccess);
            }
            if self.deployments[i].container_id.is_none() {
                return Err(StoreError::NoContainer);
            }
        }
        let t = self.advance_clock(now);
        let mut rec = clone_dep(&self.deployments[i]);
        rec.status = status;
        rec.updated_at = t;
        self.deployments.set(i, rec);
        proof {
            let olds = old(self).deployments();
            let news = self.deployments();
            assert(news == olds.update(i as int, news[i as int]));
            assert(du_unique(news));
            assert(du_idx(news, id) == i as int);
            assert forall|k: int|
                0 <= k < news.len() && #[trigger] news[k].status == DeployStatus::Running implies
                self.has_build(news[k].build_id) && self.build_of(news[k].build_id).status
                    == BuildStatus::Success by {
                if k != i {
                    assert(news[k] == olds[k]);
                } else {
                    if status != DeployStatus::Running {
                        assert(olds[k].status == DeployStatus::Running);
                        assert(false);
                    }
                }
            }
            assert(forall|a: int, b: int|
                0 <= a <= b < news.len() ==> news[a].created_at <= news[b].created_at) by {
                assert(forall|a: int|
                    0 <= a < news.len() ==> news[a].created_at == olds[a].created_at);
            }
            assert forall|ai: int| 0 <= ai < self.apps().len() implies (
            #[trigger] self.apps()[ai].active_deployment_id matches Some(dd)
                ==> self.has_deployment(dd)) by {
                let act = self.apps()[ai].active_deployment_id;
                if act is Some {
                    let dd = act->Some_0;
                    let k = du_idx(olds, dd);
                    assert(0 <= k < olds.len() && olds[k].id == dd);
                    assert(news[k].id == dd);
                    assert(du_has(news, dd));
                }
            }
            assert forall|k: int|
                0 <= k < news.len() && (#[trigger] news[k].status == DeployStatus::Running
                    || news[k].status == DeployStatus::Stopped) implies news[k].container_id
                is Some by {
                if k != i {
                    assert(news[k] == olds[k]);
                }
            }
            assert forall|k: int|
                0 <= k < news.len() && #[trigger] news[k].container_id is Some implies news[k].status
                != DeployStatus::Queued by {
                if k != i {
                    assert(news[k] == olds[k]);
                }
            }
            assert(forall|a: int|
                0 <= a < news.len() ==> #[trigger] news[a].created_at <= news[a].updated_at
                    <= self.clock());
            assert(self.builds() == old(self).builds());
            assert(forall|a: int|
                0 <= a < self.builds().len() ==> #[trigger] self.builds()[a].created_at
                    <= self.builds()[a].updated_at <= self.clock());
            assert(self.apps() == old(self).apps());
            assert forall|a: int|
                0 <= a < self.apps().len() implies #[trigger] self.apps()[a].created_at
                    <= self.apps()[a].updated_at <= self.clock() by {
                assert(old(self).apps()[a].created_at <= old(self).apps()[a].updated_at <= old(
                    self,
                ).clock());
            }
            assert(self.keys_unique());
            assert(self.stamps_ok()) by {
                assert(forall|i: int|
                    0 <= i < self.builds().len() ==> #[trigger] self.builds()[i].created_at
                        <= self.builds()[i].updated_at <= self.clock());
                assert(forall|i: int|
                    0 <= i < self.deployments().len()
                        ==> #[trigger] self.deployments()[i].created_at
                        <= self.deployments()[i].updated_at <= self.clock());
                assert(forall|i: int|
                    0 <= i < self.apps().len() ==> #[trigger] self.apps()[i].created_at
                        <= self.apps()[i].updated_at <= self.clock());
            }
            assert(self.order_ok());
            assert(self.coupling_ok());
            assert(self.container_ok());
            assert(self.active_ok());
            assert(self.wf());
        }
        Ok(())
    }

    /// Records the container of a successful deployment: its id, its
    /// name, and the discovered address if any.  Recorded exactly once,
    /// while the deployment is Deploying, just before it turns Running.
    #[verifier::rlimit(100)]
    pub fn set_deployment_container(
        &mut self,
        id: u128,
        container_id: &str,
        container_name: &str,
        address: Option<String>,
        now: u64,
    ) -> (r: Result<(), StoreError>)
        requires
            old(self).wf(),
        ensures
            final(self).wf(),
            !old(self).has_deployment(id) ==> r == Err::<(), StoreError>(StoreError::NotFound)
                && *final(self) == *old(self),
            old(self).has_deployment(id) && old(self).deployment_of(id).status
                != DeployStatus::Deploying ==> r == Err::<(), StoreError>(
                StoreError::InvalidTransition,
            ) && *final(self) == *old(self),
            old(self).has_deployment(id) && old(self).deployment_of(id).status
                == DeployStatus::Deploying && old(self).deployment_of(id).container_id is Some ==> r
                == Err::<(), StoreError>(StoreError::AlreadySet) && *final(self) == *old(self),
            old(self).has_deployment(id) && old(self).deployment_of(id).status
                == DeployStatus::Deploying && old(self).deployment_of(id).container_id is None ==> r
                == Ok::<(), StoreError>(()) && ({
                let i = du_idx(old(self).deployments(), id);
                let prev = old(self).deployment_of(id);
                let s = final(self).deployments();
                &&& s.len() == old(self).deployments().len()
                &&& forall|k: int| 0 <= k < s.len() && k != i ==> s[k] == old(self).deployments()[k]
                &&& s[i].id == id
                &&& s[i].build_id == prev.build_id
                &&& s[i].app == prev.app
                &&& s[i].image == prev.image
                &&& s[i].status == DeployStatus::Deploying
                &&& (s[i].container_id matches Some(c) && c@ == container_id@)
                &&& (s[i].container_name matches Some(c) && c@ == container_name@)
                &&& s[i].address == address
                &&& s[i].created_at == prev.created_at
                &&& s[i].updated_at == old(self).tick(now)
                &&& final(self).has_deployment(id)
                &&& final(self).deployment_of(id) == s[i]
            }),
            final(self).builds() == old(self).builds(),
            final(self).apps() == old(self).apps(),
    {
        let i = match self.find_deployment(id) {
            Some(i) => i,
            None => {
                return Err(StoreError::NotFound);
            },
        };
        proof {
            assert(du_idx(self.deployments(), id) == i as int);
        }
        if !matches!(self.deployments[i].status, DeployStatus::Deploying) {
            return Err(StoreError::InvalidTransition);
        }
        if self.deployments[i].container_id.is_some() {
            return Err(StoreError::AlreadySet);
        }
        let t = self.advance_clock(now);
        let mut rec = clone_dep(&self.deployments[i]);
        rec.container_id = Some(container_id.to_owned());
        rec.container_name = Some(container_name.to_owned());
        rec.address = address;
        rec.updated_at = t;
        self.deployments.set(i, rec);
        proof {
            let olds = old(self).deployments();
            let news = self.deployments();
            assert(news == olds.update(i as int, news[i as int]));
            assert(du_unique(news));
            assert(du_idx(news, id) == i as int);
            assert forall|k: int|
                0 <= k < news.len() && #[trigger] news[k].status == DeployStatus::Running implies
                self.has_build(news[k].build_id) && self.build_of(news[k].build_id).status
                    == BuildStatus::Success by {
                assert(news[k] == olds[k]);
            }
            assert(forall|a: int, b: int|
                0 <= a <= b < news.len() ==> news[a].created_at <= news[b].created_at) by {
                assert(forall|a: int|
                    0 <= a < news.len() ==> news[a].created_at == olds[a].created_at);
            }
            assert forall|ai: int| 0 <= ai < self.apps().len() implies (
            #[trigger] self.apps()[ai].active_deployment_id matches Some(dd)
                ==> self.has_deployment(dd)) by {
                let act = self.apps()[ai].active_deployment_id;
                if act is Some {
                    let dd = act->Some_0;
                    let k = du_idx(olds, dd);
                    assert(0 <= k < olds.len() && olds[k].id == dd);
                    assert(news[k].id == dd);
                    assert(du_has(news, dd));
                }
            }
            assert forall|k: int|
                0 <= k < news.len() && (#[trigger] news[k].status == DeployStatus::Running
                    || news[k].status == DeployStatus::Stopped) implies news[k].container_id
                is Some by {
                if k != i {
                    assert(news[k] == olds[k]);
                }
            }
            assert(forall|a: int|
                0 <= a < news.len() ==> #[trigger] news[a].created_at <= news[a].updated_at
                    <= self.clock());
            assert(self.builds() == old(self).builds());
            assert(forall|a: int|
                0 <= a < self.builds().len() ==> #[trigger] self.builds()[a].created_at
                    <= self.builds()[a].updated_at <= self.clock());
            assert(self.apps() == old(self).apps());
            assert(old(self).stamps_ok());
            lemma_app_stamps_preserved(*old(self), *self);
            assert(self.keys_unique());
            assert(self.stamps_ok()) by {
                assert(forall|i: int|
                    0 <= i < self.builds().len() ==> #[trigger] self.builds()[i].created_at
                        <= self.builds()[i].updated_at <= self.clock());
                assert(forall|i: int|
                    0 <= i < self.deployments().len()
                        ==> #[trigger] self.deployments()[i].created_at
                        <= self.deployments()[i].updated_at <= self.clock());
                assert(forall|i: int|
                    0 <= i < self.apps().len() ==> #[trigger] self.apps()[i].created_at
                        <= self.apps()[i].updated_at <= self.clock());
            }
            assert(self.order_ok());
            assert(self.coupling_ok());
            assert(self.container_ok());
            assert(self.active_ok());
            assert(self.wf());
        }
        Ok(())
    }

    /// Creates the app if it is new; otherwise only `updated_at`
    /// changes, so upserting twice leaves the record unchanged apart
    /// from timestamps.
    pub fn upsert_app(&mut self, name: &str, now: u64)
        requires
            old(self).wf(),
        ensures
            final(self).wf(),
            old(self).has_app(name@) ==> final(self).apps() == old(self).apps().update(
                au_idx(old(self).apps(), name@),
                AppRecord {
                    name: old(self).app_of(name@).name,
                    active_deployment_id: old(self).app_of(name@).active_deployment_id,
                    created_at: old(self).app_of(name@).created_at,
                    updated_at: old(self).tick(now),
                },
            ),
            !old(self).has_app(name@) ==> ({
                let s = final(self).apps();
                &&& s.drop_last() == old(self).apps()
                &&& s.len() == old(self).apps().len() + 1
                &&& s.last().name@ == name@
                &&& s.last().active_deployment_id is None
                &&& s.last().created_at == old(self).tick(now)
                &&& s.last().updated_at == old(self).tick(now)
            }),
            final(self).has_app(name@),
            final(self).app_of(name@).active_deployment_id == if old(self).has_app(name@) {
                old(self).app_of(name@).active_deployment_id
            } else {
                Option::<u128>::None
            },
            final(self).builds() == old(self).builds(),
            final(self).deployments() == old(self).deployments(),
            old(self).container_iff_ran() ==> final(self).container_iff_ran(),
    {
        let t = self.advance_clock(now);
        match self.find_app(name) {
            Some(i) => {
                proof {
                    assert(au_idx(self.apps(), name@) == i as int);
                }
                let mut rec = clone_app(&self.apps[i]);
                rec.updated_at = t;
                self.apps.set(i, rec);
                proof {
                    let olds = old(self).apps();
                    let news = self.apps();
                    assert(news == olds.update(i as int, news[i as int]));
                    assert(au_unique(news));
                    assert(au_has(news, name@));
                    assert(au_idx(news, name@) == i as int);
                    assert forall|ai: int| 0 <= ai < news.len() implies (
                    #[trigger] news[ai].active_deployment_id matches Some(dd)
                        ==> self.has_deployment(dd)) by {
                        if ai != i {
                            assert(news[ai] == olds[ai]);
                        } else {
                            assert(news[i as int].active_deployment_id == olds[
                                i as int
                            ].active_deployment_id);
                        }
                    }
                    assert(forall|a: int|
                        0 <= a < news.len() ==> #[trigger] news[a].created_at <= news[a].updated_at
                            <= self.clock());
                    assert(self.builds() == old(self).builds());
                    assert(forall|a: int|
                        0 <= a < self.builds().len() ==> #[trigger] self.builds()[a].created_at
                            <= self.builds()[a].updated_at <= self.clock());
                    assert(self.deployments() == old(self).deployments());
                    assert(forall|a: int|
                        0 <= a < self.deployments().len()
                            ==> #[trigger] self.deployments()[a].created_at
                            <= self.deployments()[a].updated_at <= self.clock());
                    assert(self.keys_unique());
            assert(self.stamps_ok()) by {
                assert(forall|i: int|
                    0 <= i < self.builds().len() ==> #[trigger] self.builds()[i].created_at
                        <= self.builds()[i].updated_at <= self.clock());
                assert(forall|i: int|
                    0 <= i < self.deployments().len()
                        ==> #[trigger] self.deployments()[i].created_at
                        <= self.deployments()[i].updated_at <= self.clock());
                assert(forall|i: int|
                    0 <= i < self.apps().len() ==> #[trigger] self.apps()[i].created_at
                        <= self.apps()[i].updated_at <= self.clock());
            }
            assert(self.order_ok());
            assert(self.coupling_ok());
            assert(self.container_ok());
            assert(self.active_ok());
            assert(self.wf());
                }
            },
            None => {
                let rec = AppRecord {
                    name: name.to_owned(),
                    active_deployment_id: None,
                    created_at: t,
                    updated_at: t,
                };
                self.apps.push(rec);
                proof {
                    let olds = old(self).apps();
                    let s = self.apps();
                    assert(s.drop_last() =~= olds);
                    assert forall|i: int, j: int|
                        0 <= i < s.len() && 0 <= j < s.len() && s[i].name@ == s[j].name@ implies i
                        == j by {
                        if i == s.len() - 1 && j < s.len() - 1 {
                            assert(s[j].name@ != name@);
                        } else if j == s.len() - 1 && i < s.len() - 1 {
                            assert(s[i].name@ != name@);
                        }
                    }
                    assert(s[s.len() - 1].name@ == name@);
                    assert(au_has(s, name@));
                    let w = au_idx(s, name@);
                    assert(0 <= w < s.len() && s[w].name@ == name@);
                    assert(w == s.len() - 1);
                    assert(forall|a: int| 0 <= a < olds.len() ==> s[a] == olds[a]);
                    assert forall|ai: int| 0 <= ai < s.len() implies (
                    #[trigger] s[ai].active_deployment_id matches Some(dd) ==> self.has_deployment(
                        dd,
                    )) by {
                        if ai < s.len() - 1 {
                            assert(s[ai] == olds[ai]);
                        } else {
                            assert(s[ai].active_deployment_id is None);
                        }
                    }
                    assert(forall|a: int|
                        0 <= a < s.len() ==> #[trigger] s[a].created_at <= s[a].updated_at
                            <= self.clock());
                    assert(self.builds() == old(self).builds());
                    assert(forall|a: int|
                        0 <= a < self.builds().len() ==> #[trigger] self.builds()[a].created_at
                            <= self.builds()[a].updated_at <= self.clock());
                    assert(self.deployments() == old(self).deployments());
                    assert(forall|a: int|
                        0 <= a < self.deployments().len()
                            ==> #[trigger] self.deployments()[a].created_at
                            <= self.deployments()[a].updated_at <= self.clock());
                    assert(self.keys_unique());
            assert(self.stamps_ok()) by {
                assert(forall|i: int|
                    0 <= i < self.builds().len() ==> #[trigger] self.builds()[i].created_at
                        <= self.builds()[i].updated_at <= self.clock());
                assert(forall|i: int|
                    0 <= i < self.deployments().len()
                        ==> #[trigger] self.deployments()[i].created_at
                        <= self.deployments()[i].updated_at <= self.clock());
                assert(forall|i: int|
                    0 <= i < self.apps().len() ==> #[trigger] self.apps()[i].created_at
                        <= self.apps()[i].updated_at <= self.clock());
            }
            assert(self.order_ok());
            assert(self.coupling_ok());
            assert(self.container_ok());
            assert(self.active_ok());
            assert(self.wf());
                }
            },
        }
    }

    /// Reads the app's active deployment pointer; `None` when the app
    /// is unknown or has none.
    pub fn get_active_deployment_id(&self, app: &str) -> (r: Option<u128>)
        requires
            self.wf(),
        ensures
            self.has_app(app@) ==> r == self.app_of(app@).active_deployment_id,
            !self.has_app(app@) ==> r is None,
    {
        match self.find_app(app) {
            Some(i) => {
                proof {
                    assert(au_idx(self.apps(), app@) == i as int);
                }
                self.apps[i].active_deployment_id
            },
            None => None,
        }
    }

    /// Replaces the app's active deployment pointer.  A new pointer
    /// must name an existing deployment that is Running at the moment
    /// of the swap.
    pub fn set_active_deployment(&mut self, app: &str, deploy_id: Option<u128>, now: u64) -> (r:
        Result<(), StoreError>)
        requires
            old(self).wf(),
        ensures
            final(self).wf(),
            !old(self).has_app(app@) ==> r == Err::<(), StoreError>(StoreError::NotFound)
                && *final(self) == *old(self),
            old(self).has_app(app@) && (deploy_id matches Some(d) && !old(self).has_deployment(d))
                ==> r == Err::<(), StoreError>(StoreError::NotFound) && *final(self) == *old(self),
            old(self).has_app(app@) && (deploy_id matches Some(d) && old(self).has_deployment(d)
                && old(self).deployment_of(d).status != DeployStatus::Running) ==> r == Err::<
                (),
                StoreError,
            >(StoreError::NotRunning) && *final(self) == *old(self),
            old(self).has_app(app@) && (deploy_id is None || (deploy_id matches Some(d) && old(
                self,
            ).has_deployment(d) && old(self).deployment_of(d).status == DeployStatus::Running))
                ==> r == Ok::<(), StoreError>(()) && final(self).apps() == old(self).apps().update(
                au_idx(old(self).apps(), app@),
                AppRecord {
                    name: old(self).app_of(app@).name,
                    active_deployment_id: deploy_id,
                    created_at: old(self).app_of(app@).created_at,
                    updated_at: old(self).tick(now),
                },
            ) && final(self).has_app(app@) && final(self).app_of(app@).active_deployment_id
                == deploy_id,
            final(self).builds() == old(self).builds(),
            final(self).deployments() == old(self).deployments(),
            old(self).container_iff_ran() ==> final(self).container_iff_ran(),
    {
        let i = match self.find_app(app) {
            Some(i) => i,
            None => {
                return Err(StoreError::NotFound);
            },
        };
        proof {
            assert(au_idx(self.apps(), app@) == i as int);
        }
        if let Some(d) = deploy_id {
            let j = match self.find_deployment(d) {
                Some(j) => j,
                None => {
                    return Err(StoreError::NotFound);
                },
            };
            proof {
                assert(du_idx(self.deployments(), d) == j as int);
            }
            if !matches!(self.deployments[j].status, DeployStatus::Running) {
                return Err(StoreError::NotRunning);
            }
        }
        let t = self.advance_clock(now);
        let mut rec = clone_app(&self.apps[i]);
        rec.active_deployment_id = deploy_id;
        rec.updated_at = t;
        self.apps.set(i, rec);
        proof {
            let olds = old(self).apps();
            let news = self.apps();
            assert(news == olds.update(i as int, news[i as int]));
            assert(au_unique(news));
            assert(au_idx(news, app@) == i as int);
            assert forall|ai: int| 0 <= ai < news.len() implies (
            #[trigger] news[ai].active_deployment_id matches Some(dd) ==> self.has_deployment(
                dd,
            )) by {
                if ai != i {
                    assert(news[ai] == olds[ai]);
                }
            }
            assert(forall|a: int|
                0 <= a < news.len() ==> #[trigger] news[a].created_at <= news[a].updated_at
                    <= self.clock());
            assert(self.builds() == old(self).builds());
            assert(forall|a: int|
                0 <= a < self.builds().len() ==> #[trigger] self.builds()[a].created_at
                    <= self.builds()[a].updated_at <= self.clock());
            assert(self.deployments() == old(self).deployments());
            assert(forall|a: int|
                0 <= a < self.deployments().len() ==> #[trigger] self.deployments()[a].created_at
                    <= self.deployments()[a].updated_at <= self.clock());
            assert(self.keys_unique());
            assert(self.stamps_ok()) by {
                assert(forall|i: int|
                    0 <= i < self.builds().len() ==> #[trigger] self.builds()[i].created_at
                        <= self.builds()[i].updated_at <= self.clock());
                assert(forall|i: int|
                    0 <= i < self.deployments().len()
                        ==> #[trigger] self.deployments()[i].created_at
                        <= self.deployments()[i].updated_at <= self.clock());
                assert(forall|i: int|
                    0 <= i < self.apps().len() ==> #[trigger] self.apps()[i].created_at
                        <= self.apps()[i].updated_at <= self.clock());
            }
            assert(self.order_ok());
            assert(self.coupling_ok());
            assert(self.container_ok());
            assert(self.active_ok());
            assert(self.wf());
        }
        Ok(())
    }
}

/// App timestamps stay within the clock when the apps are unchanged
/// and the clock only grew.
proof fn lemma_app_stamps_preserved(pre: Store, post: Store)
    requires
        pre.stamps_ok(),
        post.apps() == pre.apps(),
        post.clock() >= pre.clock(),
    ensures
        forall|i: int|
            0 <= i < post.apps().len() ==> #[trigger] post.apps()[i].created_at
                <= post.apps()[i].updated_at <= post.clock(),
{
    assert forall|i: int|
        0 <= i < post.apps().len() implies #[trigger] post.apps()[i].created_at
            <= post.apps()[i].updated_at <= post.clock() by {
        assert(pre.apps()[i].created_at <= pre.apps()[i].updated_at <= pre.clock());
    }
}

/// Copies a deployment record field by field.
fn clone_dep(d: &DeploymentRecord) -> (r: DeploymentRecord)
    ensures
        r == *d,
{
    DeploymentRecord {
        id: d.id,
        build_id: d.build_id,
        app: d.app.clone(),
        image: d.image.clone(),
        status: d.status,
        container_id: match &d.container_id {
            Some(s) => Some(s.clone()),
            None => None,
        },
        container_name: match &d.container_name {
            Some(s) => Some(s.clone()),
            None => None,
        },
        address: match &d.address {
            Some(s) => Some(s.clone()),
            None => None,
        },
        created_at: d.created_at,
        updated_at: d.updated_at,
    }
}

/// Copies an app record field by field.
fn clone_app(a: &AppRecord) -> (r: AppRecord)
    ensures
        r == *a,
{
    AppRecord {
        name: a.name.clone(),
        active_deployment_id: a.active_deployment_id,
        created_at: a.created_at,
        updated_at: a.updated_at,
    }
}

/// Whether a build passes a status filter.
pub open spec fn build_matches(b: BuildRecord, f: Option<BuildStatus>) -> bool {
    match f {
        Some(st) => b.status == st,
        None => true,
    }
}

/// The builds passing the filter, newest first.
pub open spec fn builds_desc(s: Seq<BuildRecord>, f: Option<BuildStatus>) -> Seq<BuildRecord>
    decreases s.len(),
{
    if s.len() == 0 {
        Seq::empty()
    } else {
        let rest = builds_desc(s.drop_last(), f);
        if build_matches(s.last(), f) {
            seq![s.last()] + rest
        } else {
            rest
        }
    }
}

/// Whether a deployment passes a build-id filter.
pub open spec fn dep_matches(d: DeploymentRecord, f: Option<u128>) -> bool {
    match f {
        Some(bid) => d.build_id == bid,
        None => true,
    }
}

/// The deployments passing the filter, newest first.
pub open spec fn deps_desc(s: Seq<DeploymentRecord>, f: Option<u128>) -> Seq<DeploymentRecord>
    decreases s.len(),
{
    if s.len() == 0 {
        Seq::empty()
    } else {
        let rest = deps_desc(s.drop_last(), f);
        if dep_matches(s.last(), f) {
            seq![s.last()] + rest
        } else {
            rest
        }
    }
}

/// Single active deployment per app: an app's pointer names at most
/// one deployment record, because deployment ids are unique.
pub proof fn lemma_single_active(s: Store, ai: int, i: int, j: int)
    requires
        s.wf(),
        0 <= ai < s.apps().len(),
        0 <= i < s.deployments().len(),
        0 <= j < s.deployments().len(),
        s.apps()[ai].active_deployment_id == Some(s.deployments()[i].id),
        s.apps()[ai].active_deployment_id == Some(s.deployments()[j].id),
    ensures
        i == j,
{
}

/// Deployment-build coupling: no deployment is Running while its
/// parent build is not Success.
pub proof fn lemma_running_implies_success(s: Store, i: int)
    requires
        s.wf(),
        0 <= i < s.deployments().len(),
        s.deployments()[i].status == DeployStatus::Running,
    ensures
        s.has_build(s.deployments()[i].build_id),
        s.build_of(s.deployments()[i].build_id).status == BuildStatus::Success,
{
}

/// Container discipline: in a state satisfying the full container
/// invariant, a deployment has a container recorded exactly when it
/// has reached Running (it is Running now, or Stopped after running).
pub proof fn lemma_container_iff_ran(s: Store, i: int)
    requires
        s.wf(),
        s.container_iff_ran(),
        0 <= i < s.deployments().len(),
    ensures
        (s.deployments()[i].container_id is Some) <==> (s.deployments()[i].status
            == DeployStatus::Running || s.deployments()[i].status == DeployStatus::Stopped),
{
}

/// Listings are ordered: over records whose `created_at` is
/// non-decreasing in insertion order, the newest-first listing has
/// non-increasing `created_at`.
pub proof fn lemma_builds_desc_sorted(s: Seq<BuildRecord>, f: Option<BuildStatus>)
    requires
        forall|i: int, j: int| 0 <= i <= j < s.len() ==> s[i].created_at <= s[j].created_at,
    ensures
        ({
            let d = builds_desc(s, f);
            &&& forall|a: int, b: int| 0 <= a <= b < d.len() ==> d[a].created_at >= d[b].created_at
            &&& s.len() > 0 ==> forall|a: int|
                0 <= a < d.len() ==> #[trigger] d[a].created_at <= s.last().created_at
        }),
    decreases s.len(),
{
    if s.len() > 0 {
        let rest = s.drop_last();
        assert(forall|i: int, j: int|
            0 <= i <= j < rest.len() ==> rest[i].created_at <= rest[j].created_at) by {
            assert(forall|i: int| 0 <= i < rest.len() ==> rest[i] == s[i]);
        }
        lemma_builds_desc_sorted(rest, f);
        let d = builds_desc(s, f);
        let dr = builds_desc(rest, f);
        if rest.len() > 0 {
            assert(rest.last() == s[s.len() - 2]);
            assert(rest.last().created_at <= s.last().created_at);
        }
        if build_matches(s.last(), f) {
            assert(d =~= seq![s.last()] + dr);
            assert(forall|a: int| 0 <= a < dr.len() ==> d[a + 1] == dr[a]);
            assert(forall|a: int| 1 <= a < d.len() ==> d[a] == dr[a - 1]);
        } else {
            assert(d =~= dr);
        }
    }
}

/// Deployment listings are ordered the same way: newest first.
pub proof fn lemma_deps_desc_sorted(s: Seq<DeploymentRecord>, f: Option<u128>)
    requires
        forall|i: int, j: int| 0 <= i <= j < s.len() ==> s[i].created_at <= s[j].created_at,
    ensures
        ({
            let d = deps_desc(s, f);
            &&& forall|a: int, b: int| 0 <= a <= b < d.len() ==> d[a].created_at >= d[b].created_at
            &&& s.len() > 0 ==> forall|a: int|
                0 <= a < d.len() ==> #[trigger] d[a].created_at <= s.last().created_at
        }),
    decreases s.len(),
{
    if s.len() > 0 {
        let rest = s.drop_last();
        assert(forall|i: int, j: int|
            0 <= i <= j < rest.len() ==> rest[i].created_at <= rest[j].created_at) by {
            assert(forall|i: int| 0 <= i < rest.len() ==> rest[i] == s[i]);
        }
        lemma_deps_desc_sorted(rest, f);
        let d = deps_desc(s, f);
        let dr = deps_desc(rest, f);
        if rest.len() > 0 {
            assert(rest.last() == s[s.len() - 2]);
            assert(rest.last().created_at <= s.last().created_at);
        }
        if dep_matches(s.last(), f) {
            assert(d =~= seq![s.last()] + dr);
            assert(forall|a: int| 0 <= a < dr.len() ==> d[a + 1] == dr[a]);
            assert(forall|a: int| 1 <= a < d.len() ==> d[a] == dr[a - 1]);
        } else {
            assert(d =~= dr);
        }
    }
}

} // verus!
