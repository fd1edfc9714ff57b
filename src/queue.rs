//! The job table and the broker's operations on it: claim the next job for a
//! worker, release it, mark it complete, delete it, and the queue statistics.
//!
//! Every operation is one atomic step on the table, as the backing store
//! performs it; ownership of a job changes only through `assign_job` and
//! `unassign_job`.
use vstd::prelude::*;

use crate::model::{new_job, owned_by, AnalysisType, ApiUser, CreateJob, Job, JobId, Key, ReportId};

verus! {

/// A job a worker with `perms` may claim: nobody holds it and its kind is permitted.
pub open spec fn is_eligible(j: Job, perms: Seq<AnalysisType>) -> bool {
    j.owner is None && perms.contains(j.analysis_type)
}

/// `a` is handed out before `b`: higher precedence first, then the older one.
pub open spec fn goes_before(a: Job, b: Job) -> bool {
    a.precedence > b.precedence || (a.precedence == b.precedence && a.date_last_updated
        < b.date_last_updated)
}

/// Index `i` holds a job that a claim by a worker with `perms` may take:
/// eligible, and no eligible job goes before it.
pub open spec fn is_next_for(jobs: Seq<Job>, perms: Seq<AnalysisType>, i: int) -> bool {
    &&& 0 <= i < jobs.len()
    &&& is_eligible(jobs[i], perms)
    &&& forall|k: int|
        0 <= k < jobs.len() && is_eligible(#[trigger] jobs[k], perms) ==> !goes_before(
            jobs[k],
            jobs[i],
        )
}

pub open spec fn with_owner(j: Job, owner: Option<Key>) -> Job {
    Job { owner, ..j }
}

pub open spec fn completed(j: Job) -> Job {
    Job { is_complete: true, ..j }
}

/// The number of jobs of `s` that satisfy `f`.
pub open spec fn count(s: Seq<Job>, f: spec_fn(Job) -> bool) -> nat
    decreases s.len(),
{
    if s.len() == 0 {
        0
    } else {
        count(s.drop_last(), f) + if f(s.last()) {
            1nat
        } else {
            0nat
        }
    }
}

/// Nobody holds the job.
pub open spec fn unclaimed() -> spec_fn(Job) -> bool {
    |j: Job| j.owner is None
}

pub open spec fn of_kind(kind: AnalysisType) -> spec_fn(Job) -> bool {
    |j: Job| j.analysis_type == kind
}

/// Queued work of `kind`.
pub open spec fn queued_of(kind: AnalysisType) -> spec_fn(Job) -> bool {
    |j: Job| j.owner is None && j.analysis_type == kind
}

/// Work of `kind` that some worker holds.
pub open spec fn acquired_of(kind: AnalysisType) -> spec_fn(Job) -> bool {
    |j: Job| j.owner is Some && j.analysis_type == kind
}

/// Not complete and held by nobody.
pub open spec fn waiting() -> spec_fn(Job) -> bool {
    |j: Job| j.owner is None && !j.is_complete
}

/// Not complete and held by a worker.
pub open spec fn in_flight() -> spec_fn(Job) -> bool {
    |j: Job| j.owner is Some && !j.is_complete
}

pub open spec fn finished() -> spec_fn(Job) -> bool {
    |j: Job| j.is_complete
}

/// Waiting work of `kind`.
pub open spec fn waiting_of(kind: AnalysisType) -> spec_fn(Job) -> bool {
    |j: Job| j.owner is None && !j.is_complete && j.analysis_type == kind
}

/// In-flight work of `kind`.
pub open spec fn in_flight_of(kind: AnalysisType) -> spec_fn(Job) -> bool {
    |j: Job| j.owner is Some && !j.is_complete && j.analysis_type == kind
}

/// Finished work of `kind`.
pub open spec fn finished_of(kind: AnalysisType) -> spec_fn(Job) -> bool {
    |j: Job| j.is_complete && j.analysis_type == kind
}

pub proof fn lemma_count_bound(s: Seq<Job>, f: spec_fn(Job) -> bool)
    ensures
        count(s, f) <= s.len(),
    decreases s.len(),
{
    if s.len() > 0 {
        lemma_count_bound(s.drop_last(), f);
    }
}

pub proof fn lemma_count_update(s: Seq<Job>, i: int, v: Job, f: spec_fn(Job) -> bool)
    requires
        0 <= i < s.len(),
    ensures
        count(s.update(i, v), f) + (if f(s[i]) {
            1nat
        } else {
            0nat
        }) == count(s, f) + if f(v) {
            1nat
        } else {
            0nat
        },
    decreases s.len(),
{
    let t = s.update(i, v);
    if i == s.len() - 1 {
        assert(t.drop_last() =~= s.drop_last());
    } else {
        lemma_count_update(s.drop_last(), i, v, f);
        assert(t.drop_last() =~= s.drop_last().update(i, v));
    }
}

/// Three predicates of which each job satisfies exactly one split the jobs.
pub proof fn lemma_count_split(
    s: Seq<Job>,
    f: spec_fn(Job) -> bool,
    g: spec_fn(Job) -> bool,
    h: spec_fn(Job) -> bool,
)
    requires
        forall|j: Job|
            (#[trigger] f(j) as int) + (#[trigger] g(j) as int) + (#[trigger] h(j) as int) == 1,
    ensures
        count(s, f) + count(s, g) + count(s, h) == s.len(),
    decreases s.len(),
{
    if s.len() > 0 {
        lemma_count_split(s.drop_last(), f, g, h);
        let j = s.last();
        assert((f(j) as int) + (g(j) as int) + (h(j) as int) == 1);
    }
}

/// Every id occurs at most once.
pub open spec fn ids_unique(jobs: Seq<Job>) -> bool {
    forall|i: int, k: int|
        0 <= i < jobs.len() && 0 <= k < jobs.len() && i != k ==> #[trigger] jobs[i].id
            != #[trigger] jobs[k].id
}

pub open spec fn has_id(jobs: Seq<Job>, id: JobId) -> bool {
    exists|i: int| 0 <= i < jobs.len() && (#[trigger] jobs[i]).id == id
}

/// The table of jobs, with how many were ever created and how many deleted.
pub struct JobTable {
    pub jobs: Vec<Job>,
    pub created: u64,
    pub deleted: u64,
}

fn goes_before_exec(a: &Job, b: &Job) -> (r: bool)
    ensures
        r == goes_before(*a, *b),
{
    a.precedence > b.precedence || (a.precedence == b.precedence && a.date_last_updated
        < b.date_last_updated)
}

impl JobTable {
    pub open spec fn wf(&self) -> bool {
        &&& self.jobs@.len() + self.deleted == self.created
        &&& ids_unique(self.jobs@)
    }

    pub fn new() -> (r: JobTable)
        ensures
            r.wf(),
            r.jobs@.len() == 0,
            r.created == 0,
            r.deleted == 0,
    {
        JobTable { jobs: Vec::new(), created: 0, deleted: 0 }
    }

    /// The index of the job with `id`.
    pub fn position(&self, id: JobId) -> (r: Option<usize>)
        requires
            self.wf(),
        ensures
            match r {
                Some(i) => i < self.jobs@.len() && self.jobs@[i as int].id == id,
                None => !has_id(self.jobs@, id),
            },
    {
        let mut i: usize = 0;
        while i < self.jobs.len()
            invariant
                i <= self.jobs@.len(),
                forall|k: int| 0 <= k < i ==> (#[trigger] self.jobs@[k]).id != id,
            decreases self.jobs.len() - i,
        {
            if self.jobs[i].id == id {
                return Some(i);
            }
            i = i + 1;
        }
        None
    }

    /// Stores a new queued job under `id`; refused when `id` is taken.
    pub fn insert_job(&mut self, create: CreateJob, id: JobId, now: i64) -> (r: bool)
        requires
            old(self).wf(),
            old(self).created < u64::MAX,
        ensures
            final(self).wf(),
            r == !has_id(old(self).jobs@, id),
            r ==> final(self).jobs@ == old(self).jobs@.push(new_job(create, id, now)),
            r ==> final(self).created == old(self).created + 1,
            !r ==> *final(self) == *old(self),
            final(self).deleted == old(self).deleted,
    {
        if self.position(id).is_some() {
            return false;
        }
        let job = Job::from_create(create, id, now);
        self.jobs.push(job);
        self.created = self.created + 1;
        proof {
            let s = self.jobs@;
            assert forall|i: int, k: int|
                0 <= i < s.len() && 0 <= k < s.len() && i != k implies #[trigger] s[i].id
                != #[trigger] s[k].id by {
                if i == s.len() - 1 {
                    assert(s[k] == old(self).jobs@[k]);
                } else if k == s.len() - 1 {
                    assert(s[i] == old(self).jobs@[i]);
                }
            }
        }
        true
    }

    /// Claims the next job for `api_user`: among the jobs nobody holds whose
    /// kind the user may take, one with the highest precedence and, among
    /// those, the oldest; the user's key becomes its owner. `None` when no
    /// such job exists.
    pub fn assign_job(&mut self, api_user: &ApiUser) -> (r: Option<Job>)
        requires
            old(self).wf(),
        ensures
            final(self).wf(),
            final(self).created == old(self).created,
            final(self).deleted == old(self).deleted,
            match r {
                None => {
                    &&& *final(self) == *old(self)
                    &&& forall|k: int|
                        0 <= k < old(self).jobs@.len() ==> !is_eligible(
                            #[trigger] old(self).jobs@[k],
                            api_user.perms@,
                        )
                },
                Some(job) => exists|i: int|
                    {
                        &&& is_next_for(old(self).jobs@, api_user.perms@, i)
                        &&& final(self).jobs@ == old(self).jobs@.update(
                            i,
                            with_owner(old(self).jobs@[i], Some(api_user.key)),
                        )
                        &&& job == final(self).jobs@[i]
                        &&& count(final(self).jobs@, unclaimed()) + 1 == count(
                            old(self).jobs@,
                            unclaimed(),
                        )
                    },
            },
    {
        let ghost perms = api_user.perms@;
        let n = self.jobs.len();
        let mut best: Option<usize> = None;
        let mut i: usize = 0;
        while i < n
            invariant
                n == self.jobs@.len(),
                perms == api_user.perms@,
                i <= n,
                match best {
                    None => forall|k: int|
                        0 <= k < i ==> !is_eligible(#[trigger] self.jobs@[k], perms),
                    Some(b) => {
                        &&& b < i
                        &&& is_eligible(self.jobs@[b as int], perms)
                        &&& forall|k: int|
                            0 <= k < i && is_eligible(#[trigger] self.jobs@[k], perms)
                                ==> !goes_before(self.jobs@[k], self.jobs@[b as int])
                    },
                },
            decreases n - i,
        {
            let j = &self.jobs[i];
            let eligible = j.owner.is_none() && api_user.permits(j.analysis_type);
            assert(eligible == is_eligible(self.jobs@[i as int], perms));
            if eligible {
                match best {
                    None => {
                        best = Some(i);
                    },
                    Some(b) => {
                        if goes_before_exec(j, &self.jobs[b]) {
                            best = Some(i);
                        }
                    },
                }
            }
            i = i + 1;
        }
        match best {
            None => None,
            Some(b) => {
                let ghost before = self.jobs@;
                let mut job = self.jobs[b].duplicate();
                job.owner = Some(api_user.key.duplicate());
                self.jobs.set(b, job);
                proof {
                    assert(self.jobs@ == before.update(
                        b as int,
                        with_owner(before[b as int], Some(api_user.key)),
                    ));
                    lemma_count_update(before, b as int, self.jobs@[b as int], unclaimed());
                    let s = self.jobs@;
                    assert forall|x: int, y: int|
                        0 <= x < s.len() && 0 <= y < s.len() && x != y implies #[trigger] s[x].id
                        != #[trigger] s[y].id by {
                        assert(s[x].id == before[x].id);
                        assert(s[y].id == before[y].id);
                    }
                }
                Some(self.jobs[b].duplicate())
            },
        }
    }

    /// Releases job `id` if `key` holds it; otherwise nothing changes.
    /// Returns whether it was released.
    pub fn unassign_job(&mut self, key: &Key, id: JobId) -> (r: bool)
        requires
            old(self).wf(),
        ensures
            final(self).wf(),
            r == exists|i: int|
                0 <= i < old(self).jobs@.len() && (#[trigger] old(self).jobs@[i]).id == id
                    && owned_by(old(self).jobs@[i].owner, *key),
            !r ==> *final(self) == *old(self),
            r ==> exists|i: int|
                0 <= i < old(self).jobs@.len() && (#[trigger] old(self).jobs@[i]).id == id
                    && final(self).jobs@ == old(self).jobs@.update(
                    i,
                    with_owner(old(self).jobs@[i], None),
                ),
            final(self).created == old(self).created,
            final(self).deleted == old(self).deleted,
    {
        match self.position(id) {
            None => false,
            Some(i) => {
                if !key.owns(&self.jobs[i].owner) {
                    proof {
                        assert forall|x: int|
                            0 <= x < old(self).jobs@.len() && (#[trigger] old(
                                self,
                            ).jobs@[x]).id == id implies !owned_by(
                            old(self).jobs@[x].owner,
                            *key,
                        ) by {
                            assert(x == i);
                        }
                    }
                    return false;
                }
                let ghost before = self.jobs@;
                let mut job = self.jobs[i].duplicate();
                job.owner = None;
                self.jobs.set(i, job);
                proof {
                    assert(self.jobs@ == before.update(i as int, with_owner(before[i as int], None)));
                    let s = self.jobs@;
                    assert forall|x: int, y: int|
                        0 <= x < s.len() && 0 <= y < s.len() && x != y implies #[trigger] s[x].id
                        != #[trigger] s[y].id by {
                        assert(s[x].id == before[x].id);
                        assert(s[y].id == before[y].id);
                    }
                }
                true
            },
        }
    }

    /// Marks job `id` complete; returns whether such a job exists.
    pub fn set_complete(&mut self, id: JobId) -> (r: bool)
        requires
            old(self).wf(),
        ensures
            final(self).wf(),
            r == has_id(old(self).jobs@, id),
            !r ==> *final(self) == *old(self),
            r ==> exists|i: int|
                0 <= i < old(self).jobs@.len() && (#[trigger] old(self).jobs@[i]).id == id
                    && final(self).jobs@ == old(self).jobs@.update(i, completed(old(self).jobs@[i])),
            final(self).created == old(self).created,
            final(self).deleted == old(self).deleted,
    {
        match self.position(id) {
            None => false,
            Some(i) => {
                let ghost before = self.jobs@;
                let mut job = self.jobs[i].duplicate();
                job.is_complete = true;
                self.jobs.set(i, job);
                proof {
                    assert(self.jobs@ == before.update(i as int, completed(before[i as int])));
                    let s = self.jobs@;
                    assert forall|x: int, y: int|
                        0 <= x < s.len() && 0 <= y < s.len() && x != y implies #[trigger] s[x].id
                        != #[trigger] s[y].id by {
                        assert(s[x].id == before[x].id);
                        assert(s[y].id == before[y].id);
                    }
                }
                true
            },
        }
    }

    /// Removes job `id`; returns whether it existed.
    pub fn delete_job(&mut self, id: JobId) -> (r: bool)
        requires
            old(self).wf(),
        ensures
            final(self).wf(),
            r == has_id(old(self).jobs@, id),
            !r ==> *final(self) == *old(self),
            r ==> exists|i: int|
                0 <= i < old(self).jobs@.len() && (#[trigger] old(self).jobs@[i]).id == id
                    && final(self).jobs@ == old(self).jobs@.remove(i),
            r ==> final(self).deleted == old(self).deleted + 1,
            final(self).created == old(self).created,
    {
        match self.position(id) {
            None => false,
            Some(i) => {
                let ghost before = self.jobs@;
                self.jobs.remove(i);
                self.deleted = self.deleted + 1;
                proof {
                    let s = self.jobs@;
                    assert forall|x: int, y: int|
                        0 <= x < s.len() && 0 <= y < s.len() && x != y implies #[trigger] s[x].id
                        != #[trigger] s[y].id by {
                        let ox = if x < i { x } else { x + 1 };
                        let oy = if y < i { y } else { y + 1 };
                        assert(s[x] == before[ox]);
                        assert(s[y] == before[oy]);
                    }
                }
                true
            },
        }
    }

    /// The job `id`, if it exists.
    pub fn get_job(&self, id: JobId) -> (r: Option<Job>)
        requires
            self.wf(),
        ensures
            match r {
                Some(j) => exists|i: int|
                    0 <= i < self.jobs@.len() && #[trigger] self.jobs@[i] == j && j.id == id,
                None => !has_id(self.jobs@, id),
            },
    {
        match self.position(id) {
            Some(i) => Some(self.jobs[i].duplicate()),
            None => None,
        }
    }

    /// The job `id` if `key` holds it.
    pub fn get_user_job(&self, id: JobId, key: &Key) -> (r: Option<Job>)
        requires
            self.wf(),
        ensures
            match r {
                Some(j) => exists|i: int|
                    0 <= i < self.jobs@.len() && #[trigger] self.jobs@[i] == j && j.id == id
                        && owned_by(j.owner, *key),
                None => forall|i: int|
                    0 <= i < self.jobs@.len() && (#[trigger] self.jobs@[i]).id == id
                        ==> !owned_by(self.jobs@[i].owner, *key),
            },
    {
        match self.position(id) {
            Some(i) => {
                if key.owns(&self.jobs[i].owner) {
                    Some(self.jobs[i].duplicate())
                } else {
                    proof {
                        assert forall|x: int|
                            0 <= x < self.jobs@.len() && (#[trigger] self.jobs@[x]).id
                                == id implies !owned_by(self.jobs@[x].owner, *key) by {
                            assert(x == i);
                        }
                    }
                    None
                }
            },
            None => None,
        }
    }

    /// The number of jobs of `kind` that are held (`held`) or not held.
    fn count_where(&self, kind: AnalysisType, held: bool) -> (r: u64)
        ensures
            held ==> r == count(self.jobs@, acquired_of(kind)),
            !held ==> r == count(self.jobs@, queued_of(kind)),
    {
        let ghost f = if held {
            acquired_of(kind)
        } else {
            queued_of(kind)
        };
        let mut c: u64 = 0;
        let mut i: usize = 0;
        while i < self.jobs.len()
            invariant
                i <= self.jobs@.len(),
                f == if held {
                    acquired_of(kind)
                } else {
                    queued_of(kind)
                },
                c == count(self.jobs@.take(i as int), f),
                c <= i,
            decreases self.jobs.len() - i,
        {
            proof {
                assert(self.jobs@.take(i + 1).drop_last() =~= self.jobs@.take(i as int));
                lemma_count_bound(self.jobs@.take(i as int), f);
            }
            let j = &self.jobs[i];
            let hit = j.owner.is_some() == held && j.analysis_type == kind;
            proof {
                assert(self.jobs@.take(i + 1).last() == self.jobs@[i as int]);
                assert(hit == f(self.jobs@[i as int]));
            }
            if hit {
                c = c + 1;
            }
            i = i + 1;
        }
        proof {
            assert(self.jobs@.take(i as int) =~= self.jobs@);
        }
        c
    }

    /// How many jobs of `kind` some worker holds.
    pub fn acquired_jobs(&self, kind: AnalysisType) -> (r: u64)
        ensures
            r == count(self.jobs@, acquired_of(kind)),
    {
        self.count_where(kind, true)
    }

    /// How many jobs of `kind` nobody holds.
    pub fn queued_jobs(&self, kind: AnalysisType) -> (r: u64)
        ensures
            r == count(self.jobs@, queued_of(kind)),
    {
        self.count_where(kind, false)
    }

    /// Among the jobs of `kind` that nobody holds, the one updated last (the
    /// store sorts them by last update, descending, and takes the first).
    pub fn oldest_job(&self, kind: AnalysisType) -> (r: Option<Job>)
        ensures
            is_oldest(self.jobs@, kind, r),
    {
        let mut best: Option<usize> = None;
        let mut i: usize = 0;
        while i < self.jobs.len()
            invariant
                i <= self.jobs@.len(),
                match best {
                    None => forall|k: int|
                        0 <= k < i ==> !(queued_of(kind))(#[trigger] self.jobs@[k]),
                    Some(b) => {
                        &&& b < i
                        &&& (queued_of(kind))(self.jobs@[b as int])
                        &&& forall|k: int|
                            0 <= k < i && (queued_of(kind))(#[trigger] self.jobs@[k])
                                ==> self.jobs@[k].date_last_updated
                                <= self.jobs@[b as int].date_last_updated
                    },
                },
            decreases self.jobs.len() - i,
        {
            let j = &self.jobs[i];
            if j.owner.is_none() && j.analysis_type == kind {
                match best {
                    None => {
                        best = Some(i);
                    },
                    Some(b) => {
                        if j.date_last_updated > self.jobs[b].date_last_updated {
                            best = Some(i);
                        }
                    },
                }
            }
            i = i + 1;
        }
        match best {
            None => None,
            Some(b) => Some(self.jobs[b].duplicate()),
        }
    }

    /// The jobs bound to report `report_id`, in table order.
    pub fn find_by_report(&self, report_id: ReportId) -> (r: Vec<Job>)
        ensures
            r@ == jobs_of_report(self.jobs@, report_id),
    {
        let mut out: Vec<Job> = Vec::new();
        let mut i: usize = 0;
        while i < self.jobs.len()
            invariant
                i <= self.jobs@.len(),
                out@ == jobs_of_report(self.jobs@.take(i as int), report_id),
            decreases self.jobs.len() - i,
        {
            proof {
                assert(self.jobs@.take(i + 1).drop_last() =~= self.jobs@.take(i as int));
            }
            if self.jobs[i].report_id == Some(report_id) {
                out.push(self.jobs[i].duplicate());
            }
            i = i + 1;
        }
        proof {
            assert(self.jobs@.take(i as int) =~= self.jobs@);
        }
        out
    }
}

/// `o` is what the store reports as the oldest queued job of `kind`: none
/// when nothing of that kind is queued, else a queued job of that kind
/// updated no earlier than any other.
pub open spec fn is_oldest(jobs: Seq<Job>, kind: AnalysisType, o: Option<Job>) -> bool {
    match o {
        None => forall|k: int| 0 <= k < jobs.len() ==> !(queued_of(kind))(#[trigger] jobs[k]),
        Some(j) => exists|i: int|
            {
                &&& 0 <= i < jobs.len()
                &&& #[trigger] jobs[i] == j
                &&& (queued_of(kind))(j)
                &&& forall|k: int|
                    0 <= k < jobs.len() && (queued_of(kind))(#[trigger] jobs[k])
                        ==> jobs[k].date_last_updated <= j.date_last_updated
            },
    }
}

/// The jobs of `s` bound to report `r`, in order.
pub open spec fn jobs_of_report(s: Seq<Job>, r: ReportId) -> Seq<Job>
    decreases s.len(),
{
    if s.len() == 0 {
        s
    } else {
        let rest = jobs_of_report(s.drop_last(), r);
        if s.last().report_id == Some(r) {
            rest.push(s.last())
        } else {
            rest
        }
    }
}

/// Every job is in exactly one of three states (waiting, in flight,
/// finished), and with the jobs deleted they account for every job ever
/// created. Per kind, the held and the unheld jobs are all the jobs of
/// that kind, and so are its waiting, in-flight and finished jobs.
pub proof fn lemma_status_partition(t: JobTable, kind: AnalysisType)
    requires
        t.wf(),
    ensures
        count(t.jobs@, waiting_of(kind)) + count(t.jobs@, in_flight_of(kind)) + count(
            t.jobs@,
            finished_of(kind),
        ) == count(t.jobs@, of_kind(kind)),
        count(t.jobs@, waiting()) + count(t.jobs@, in_flight()) + count(t.jobs@, finished())
            + t.deleted == t.created,
        count(t.jobs@, acquired_of(kind)) + count(t.jobs@, queued_of(kind)) == count(
            t.jobs@,
            of_kind(kind),
        ),
{
    assert forall|j: Job|
        ((#[trigger] (waiting())(j)) as int) + ((#[trigger] (in_flight())(j)) as int) + ((
        #[trigger] (finished())(j)) as int) == 1 by {}
    lemma_count_split(t.jobs@, waiting(), in_flight(), finished());
    lemma_count_kind(t.jobs@, kind);
}

proof fn lemma_count_kind(s: Seq<Job>, kind: AnalysisType)
    ensures
        count(s, acquired_of(kind)) + count(s, queued_of(kind)) == count(s, of_kind(kind)),
        count(s, waiting_of(kind)) + count(s, in_flight_of(kind)) + count(s, finished_of(kind))
            == count(s, of_kind(kind)),
    decreases s.len(),
{
    if s.len() > 0 {
        lemma_count_kind(s.drop_last(), kind);
    }
}

/// Claims never outnumber the jobs nobody held: along a series of tables
/// in which each step is a successful `assign_job` (one unowned job fewer,
/// as its contract states), there are at most as many steps as there were
/// unowned jobs at the start.
pub proof fn lemma_claims_bounded(tables: Seq<Seq<Job>>)
    requires
        tables.len() >= 1,
        forall|k: int|
            0 <= k < tables.len() - 1 ==> count(#[trigger] tables[k + 1], unclaimed()) + 1 == count(
                tables[k],
                unclaimed(),
            ),
    ensures
        tables.len() - 1 <= count(tables[0], unclaimed()),
        count(tables[tables.len() - 1], unclaimed()) + tables.len() - 1 == count(
            tables[0],
            unclaimed(),
        ),
    decreases tables.len(),
{
    if tables.len() > 1 {
        let rest = tables.drop_last();
        assert forall|k: int| 0 <= k < rest.len() - 1 implies count(
            #[trigger] rest[k + 1],
            unclaimed(),
        ) + 1 == count(rest[k], unclaimed()) by {
            assert(rest[k + 1] == tables[k + 1]);
            assert(rest[k] == tables[k]);
        }
        lemma_claims_bounded(rest);
        let k = tables.len() - 2;
        assert(count(tables[k + 1], unclaimed()) + 1 == count(tables[k], unclaimed()));
        assert(rest[rest.len() - 1] == tables[k]);
    }
}

/// A claim never passes over a job of higher precedence, and among jobs of
/// equal precedence never over an older one.
pub proof fn lemma_claim_order(jobs: Seq<Job>, perms: Seq<AnalysisType>, i: int, k: int)
    requires
        is_next_for(jobs, perms, i),
        0 <= k < jobs.len(),
        is_eligible(jobs[k], perms),
    ensures
        jobs[k].precedence <= jobs[i].precedence,
        jobs[k].precedence == jobs[i].precedence ==> jobs[i].date_last_updated
            <= jobs[k].date_last_updated,
{
}

} // verus!
