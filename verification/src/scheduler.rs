//! Fair, bounded-concurrency render scheduling with per-project coalescing.
//!
//! The scheduler holds at most one queued job per project (a newer commit
//! supersedes the queued one), runs at most `max_concurrency` jobs at once, and
//! always starts the queued job whose project has the fewest jobs in flight,
//! breaking ties by arrival order.

use vstd::prelude::*;
use crate::text::str_eq;

verus! {

/// True when a candidate submission sequence is strictly newer than an existing one.
pub fn queued_submission_is_newer(existing: u64, candidate: u64) -> (r: bool)
    ensures
        r == (candidate > existing),
{
    candidate > existing
}

/// One entry in the pending queue.
pub struct QueueEntry<T> {
    pub project_id: String,
    /// Monotonic arrival order, the fair-scheduling tie-break.
    pub seq: u64,
    pub job: T,
}

/// Number of in-flight jobs for one project (always at least one).
pub struct RunningCount {
    pub project_id: String,
    pub count: u64,
}

pub struct FairScheduler<T> {
    max_concurrency: usize,
    next_seq: u64,
    queue: Vec<QueueEntry<T>>,
    running: Vec<RunningCount>,
    in_flight: usize,
}

/// Sum of the counts recorded for project `p`.
pub open spec fn count_for(rs: Seq<RunningCount>, p: Seq<char>) -> nat
    decreases rs.len(),
{
    if rs.len() == 0 {
        0
    } else {
        count_for(rs.drop_last(), p) + if rs.last().project_id@ == p {
            rs.last().count as nat
        } else {
            0nat
        }
    }
}

/// Queue entries whose project is not `p`, in order.
pub open spec fn other_projects<T>(q: Seq<QueueEntry<T>>, p: Seq<char>) -> Seq<QueueEntry<T>>
    decreases q.len(),
{
    if q.len() == 0 {
        q
    } else if q.last().project_id@ == p {
        other_projects(q.drop_last(), p)
    } else {
        other_projects(q.drop_last(), p).push(q.last())
    }
}

/// Jobs queued for project `p`, in order.
pub open spec fn jobs_of<T>(q: Seq<QueueEntry<T>>, p: Seq<char>) -> Seq<T>
    decreases q.len(),
{
    if q.len() == 0 {
        Seq::empty()
    } else if q.last().project_id@ == p {
        jobs_of(q.drop_last(), p).push(q.last().job)
    } else {
        jobs_of(q.drop_last(), p)
    }
}

/// Lexicographic order on `(running, seq)` scheduling keys.
pub open spec fn key_lt(a: (nat, u64), b: (nat, u64)) -> bool {
    a.0 < b.0 || (a.0 == b.0 && a.1 < b.1)
}

impl<T> FairScheduler<T> {
    pub closed spec fn queue_view(&self) -> Seq<QueueEntry<T>> {
        self.queue@
    }

    pub closed spec fn running_view(&self) -> Seq<RunningCount> {
        self.running@
    }

    /// Jobs in flight for project `p`.
    pub open spec fn running_count(&self, p: Seq<char>) -> nat {
        count_for(self.running_view(), p)
    }

    pub closed spec fn max_view(&self) -> usize {
        self.max_concurrency
    }

    pub closed spec fn in_flight_view(&self) -> usize {
        self.in_flight
    }

    pub closed spec fn next_seq_view(&self) -> u64 {
        self.next_seq
    }

    /// The scheduling key of queue entry `i`.
    pub open spec fn key_of(&self, i: int) -> (nat, u64) {
        (self.running_count(self.queue_view()[i].project_id@), self.queue_view()[i].seq)
    }

    /// The scheduler's internal invariant: a positive concurrency cap, at most one
    /// queued entry per project in arrival order with sequence numbers below
    /// `next_seq`, and one positive count per running project. A project's
    /// count never exceeds the number of jobs ever queued, and stays below it
    /// while the project has queued work, so starting a job cannot overflow it.
    pub closed spec fn wf(&self) -> bool {
        &&& self.max_concurrency >= 1
        &&& forall|i: int, j: int|
            0 <= i < j < self.queue@.len() ==> (#[trigger] self.queue@[i]).project_id@ != (
            #[trigger] self.queue@[j]).project_id@ && self.queue@[i].seq < self.queue@[j].seq
        &&& forall|i: int| 0 <= i < self.queue@.len() ==> (#[trigger] self.queue@[i]).seq < self.next_seq
        &&& forall|i: int, j: int|
            0 <= i < j < self.running@.len() ==> (#[trigger] self.running@[i]).project_id@ != (
            #[trigger] self.running@[j]).project_id@
        &&& forall|i: int| 0 <= i < self.running@.len() ==> (#[trigger] self.running@[i]).count >= 1
        &&& forall|i: int| 0 <= i < self.running@.len() ==> (#[trigger] self.running@[i]).count <= self.next_seq
        &&& forall|i: int, j: int|
            0 <= i < self.running@.len() && 0 <= j < self.queue@.len() && (#[trigger] self.running@[i]).project_id@
                == (#[trigger] self.queue@[j]).project_id@ ==> self.running@[i].count < self.next_seq
    }

    /// An idle scheduler; a requested cap of zero is raised to one.
    pub fn new(max_concurrency: usize) -> (s: Self)
        ensures
            s.wf(),
            s.max_view() == if max_concurrency >= 1 {
                max_concurrency
            } else {
                1
            },
            s.queue_view().len() == 0,
            s.in_flight_view() == 0,
            s.next_seq_view() == 0,
            forall|p: Seq<char>| #[trigger] s.running_count(p) == 0,
    {
        let s = FairScheduler {
            max_concurrency: if max_concurrency >= 1 {
                max_concurrency
            } else {
                1
            },
            next_seq: 0,
            queue: Vec::new(),
            running: Vec::new(),
            in_flight: 0,
        };
        s
    }

    /// Change the cap (a requested cap of zero is raised to one).
    pub fn set_max_concurrency(&mut self, max_concurrency: usize)
        requires
            old(self).wf(),
        ensures
            final(self).wf(),
            final(self).max_view() == if max_concurrency >= 1 {
                max_concurrency
            } else {
                1
            },
            final(self).queue_view() == old(self).queue_view(),
            final(self).running_view() == old(self).running_view(),
            final(self).in_flight_view() == old(self).in_flight_view(),
            final(self).next_seq_view() == old(self).next_seq_view(),
    {
        self.max_concurrency = if max_concurrency >= 1 {
            max_concurrency
        } else {
            1
        };
    }

    /// Number of jobs in flight.
    pub fn in_flight(&self) -> (r: usize)
        ensures
            r == self.in_flight_view(),
    {
        self.in_flight
    }

    /// Number of queued jobs.
    pub fn queued_len(&self) -> (r: usize)
        ensures
            r == self.queue_view().len(),
    {
        self.queue.len()
    }
}

proof fn lemma_other_projects_push<T>(q: Seq<QueueEntry<T>>, e: QueueEntry<T>, p: Seq<char>)
    ensures
        other_projects(q.push(e), p) == if e.project_id@ == p {
            other_projects(q, p)
        } else {
            other_projects(q, p).push(e)
        },
        jobs_of(q.push(e), p) == if e.project_id@ == p {
            jobs_of(q, p).push(e.job)
        } else {
            jobs_of(q, p)
        },
{
    assert(q.push(e).drop_last() =~= q);
}

pub open spec fn ordered_queue<T>(q: Seq<QueueEntry<T>>) -> bool {
    forall|i: int, j: int|
        0 <= i < j < q.len() ==> (#[trigger] q[i]).project_id@ != (#[trigger] q[j]).project_id@
            && q[i].seq < q[j].seq
}

proof fn lemma_other_projects_ordered<T>(q: Seq<QueueEntry<T>>, p: Seq<char>)
    requires
        ordered_queue(q),
    ensures
        ordered_queue(other_projects(q, p)),
        forall|i: int|
            0 <= i < other_projects(q, p).len() ==> (#[trigger] other_projects(q, p)[i]).project_id@
                != p && exists|k: int| 0 <= k < q.len() && q[k] == other_projects(q, p)[i],
    decreases q.len(),
{
    if q.len() > 0 {
        let d = q.drop_last();
        assert(ordered_queue(d)) by {
            assert forall|i: int, j: int| 0 <= i < j < d.len() implies (#[trigger] d[i]).project_id@
                != (#[trigger] d[j]).project_id@ && d[i].seq < d[j].seq by {
                assert(d[i] == q[i] && d[j] == q[j]);
            }
        }
        lemma_other_projects_ordered(d, p);
        let od = other_projects(d, p);
        let o = other_projects(q, p);
        if q.last().project_id@ == p {
            assert forall|i: int| 0 <= i < o.len() implies (#[trigger] o[i]).project_id@ != p
                && exists|k: int| 0 <= k < q.len() && q[k] == o[i] by {
                let k = choose|k: int| 0 <= k < d.len() && d[k] == od[i];
                assert(q[k] == d[k]);
            }
        } else {
            assert(o == od.push(q.last()));
            assert forall|i: int| 0 <= i < o.len() implies (#[trigger] o[i]).project_id@ != p
                && exists|k: int| 0 <= k < q.len() && q[k] == o[i] by {
                if i < od.len() {
                    assert(o[i] == od[i]);
                    let k = choose|k: int| 0 <= k < d.len() && d[k] == od[i];
                    assert(q[k] == d[k]);
                } else {
                    assert(q[q.len() - 1] == o[i]);
                }
            }
            assert forall|i: int, j: int| 0 <= i < j < o.len() implies (#[trigger] o[i]).project_id@
                != (#[trigger] o[j]).project_id@ && o[i].seq < o[j].seq by {
                assert(o[i] == od[i]);
                if j < od.len() {
                    assert(o[j] == od[j]);
                } else {
                    let k = choose|k: int| 0 <= k < d.len() && d[k] == od[i];
                    assert(q[k] == d[k]);
                    assert(o[j] == q[q.len() - 1]);
                }
            }
        }
    }
}

proof fn lemma_count_update(rs: Seq<RunningCount>, i: int, e: RunningCount, p: Seq<char>)
    requires
        0 <= i < rs.len(),
    ensures
        count_for(rs.update(i, e), p) + (if rs[i].project_id@ == p {
            rs[i].count as nat
        } else {
            0nat
        }) == count_for(rs, p) + (if e.project_id@ == p {
            e.count as nat
        } else {
            0nat
        }),
    decreases rs.len(),
{
    let u = rs.update(i, e);
    if i == rs.len() - 1 {
        assert(u.drop_last() =~= rs.drop_last());
    } else {
        assert(u.drop_last() =~= rs.drop_last().update(i, e));
        lemma_count_update(rs.drop_last(), i, e, p);
    }
}

proof fn lemma_count_remove(rs: Seq<RunningCount>, i: int, p: Seq<char>)
    requires
        0 <= i < rs.len(),
    ensures
        count_for(rs.remove(i), p) + (if rs[i].project_id@ == p {
            rs[i].count as nat
        } else {
            0nat
        }) == count_for(rs, p),
    decreases rs.len(),
{
    let u = rs.remove(i);
    if i == rs.len() - 1 {
        assert(u =~= rs.drop_last());
    } else {
        assert(u.drop_last() =~= rs.drop_last().remove(i));
        assert(u.last() == rs.last());
        lemma_count_remove(rs.drop_last(), i, p);
    }
}

proof fn lemma_count_absent(rs: Seq<RunningCount>, p: Seq<char>)
    requires
        forall|k: int| 0 <= k < rs.len() ==> (#[trigger] rs[k]).project_id@ != p,
    ensures
        count_for(rs, p) == 0,
    decreases rs.len(),
{
    if rs.len() > 0 {
        lemma_count_absent(rs.drop_last(), p);
    }
}

proof fn lemma_count_single(rs: Seq<RunningCount>, i: int, p: Seq<char>)
    requires
        0 <= i < rs.len(),
        rs[i].project_id@ == p,
        forall|k: int| 0 <= k < rs.len() && k != i ==> (#[trigger] rs[k]).project_id@ != p,
    ensures
        count_for(rs, p) == rs[i].count,
    decreases rs.len(),
{
    if i == rs.len() - 1 {
        lemma_count_absent(rs.drop_last(), p);
    } else {
        lemma_count_single(rs.drop_last(), i, p);
    }
}

impl<T> FairScheduler<T> {
    /// Index of the running entry for `p`, if any.
    fn find_running(&self, p: &str) -> (r: Option<usize>)
        requires
            self.wf(),
        ensures
            match r {
                Some(i) => i < self.running@.len() && self.running@[i as int].project_id@ == p@
                    && self.running_count(p@) == self.running@[i as int].count,
                None => (forall|k: int|
                    0 <= k < self.running@.len() ==> (#[trigger] self.running@[k]).project_id@
                        != p@) && self.running_count(p@) == 0,
            },
    {
        let mut i: usize = 0;
        while i < self.running.len()
            invariant
                self.wf(),
                i <= self.running@.len(),
                forall|k: int| 0 <= k < i ==> (#[trigger] self.running@[k]).project_id@ != p@,
            decreases self.running.len() - i,
        {
            if str_eq(self.running[i].project_id.as_str(), p) {
                proof {
                    assert forall|k: int|
                        0 <= k < self.running@.len() && k != i implies (#[trigger] self.running@[k]).project_id@
                        != p@ by {
                        if k < i {
                        } else {
                            assert(self.running@[i as int].project_id@ != self.running@[k].project_id@);
                        }
                    }
                    lemma_count_single(self.running@, i as int, p@);
                }
                return Some(i);
            }
            i = i + 1;
        }
        proof {
            lemma_count_absent(self.running@, p@);
        }
        None
    }

    /// Jobs in flight for `p`.
    fn count_of(&self, p: &str) -> (r: u64)
        requires
            self.wf(),
        ensures
            r == self.running_count(p@),
    {
        match self.find_running(p) {
            Some(i) => self.running[i].count,
            None => 0,
        }
    }

    /// Enqueue a job, coalescing away any still-queued work for the same project.
    /// The superseded jobs are returned; the new job becomes the project's only
    /// queued work, last in arrival order.
    pub fn enqueue(&mut self, project_id: String, job: T) -> (superseded: Vec<T>)
        requires
            old(self).wf(),
            old(self).next_seq_view() < u64::MAX,
        ensures
            final(self).wf(),
            final(self).queue_view().len() == other_projects(old(self).queue_view(), project_id@).len() + 1,
            final(self).queue_view().drop_last() == other_projects(old(self).queue_view(), project_id@),
            final(self).queue_view().last().project_id@ == project_id@,
            final(self).queue_view().last().seq == old(self).next_seq_view(),
            final(self).queue_view().last().job == job,
            superseded@ == jobs_of(old(self).queue_view(), project_id@),
            final(self).next_seq_view() == old(self).next_seq_view() + 1,
            final(self).running_view() == old(self).running_view(),
            final(self).in_flight_view() == old(self).in_flight_view(),
            final(self).max_view() == old(self).max_view(),
    {
        let ghost q0 = self.queue@;
        let mut pending: Vec<QueueEntry<T>> = Vec::new();
        std::mem::swap(&mut pending, &mut self.queue);
        let mut kept: Vec<QueueEntry<T>> = Vec::new();
        let mut superseded: Vec<T> = Vec::new();
        let ghost mut taken: int = 0;
        while pending.len() > 0
            invariant
                0 <= taken <= q0.len(),
                pending@ == q0.subrange(taken, q0.len() as int),
                kept@ == other_projects(q0.subrange(0, taken), project_id@),
                superseded@ == jobs_of(q0.subrange(0, taken), project_id@),
            decreases pending.len(),
        {
            let e = pending.remove(0);
            proof {
                assert(q0.subrange(0, taken + 1) =~= q0.subrange(0, taken).push(e));
                lemma_other_projects_push(q0.subrange(0, taken), e, project_id@);
                taken = taken + 1;
                assert(pending@ =~= q0.subrange(taken, q0.len() as int));
            }
            if str_eq(e.project_id.as_str(), project_id.as_str()) {
                superseded.push(e.job);
            } else {
                kept.push(e);
            }
        }
        proof {
            assert(q0.subrange(0, taken) =~= q0);
        }
        let seq = self.next_seq;
        self.next_seq = self.next_seq + 1;
        kept.push(QueueEntry { project_id, seq, job });
        self.queue = kept;
        proof {
            lemma_other_projects_ordered(q0, project_id@);
            let q1 = self.queue@;
            let o = other_projects(q0, project_id@);
            assert(q1.drop_last() =~= o);
            assert forall|i: int| 0 <= i < q1.len() implies (#[trigger] q1[i]).seq < self.next_seq by {
                if i < q1.len() - 1 {
                    assert(q1[i] == o[i]);
                    let k = choose|k: int| 0 <= k < q0.len() && q0[k] == o[i];
                }
            }
            assert forall|i: int, j: int|
                0 <= i < j < q1.len() implies (#[trigger] q1[i]).project_id@ != (
                #[trigger] q1[j]).project_id@ && q1[i].seq < q1[j].seq by {
                assert(q1[i] == o[i]);
                if j < q1.len() - 1 {
                    assert(q1[j] == o[j]);
                } else {
                    let k = choose|k: int| 0 <= k < q0.len() && q0[k] == o[i];
                }
            }
        }
        superseded
    }
}

/// `s1` is `s0` after starting one job of project `p`: its count and the
/// in-flight total each grow by one and every other count is unchanged.
pub open spec fn started<T>(s0: FairScheduler<T>, s1: FairScheduler<T>, p: Seq<char>) -> bool {
    &&& s1.running_count(p) == s0.running_count(p) + 1
    &&& forall|q: Seq<char>| q != p ==> #[trigger] s1.running_count(q) == s0.running_count(q)
    &&& s1.in_flight_view() == s0.in_flight_view() + 1
}

/// `s1` is `s0` after releasing a slot of project `p`: its count drops by one
/// (staying at zero when none was running), every other count is unchanged, and
/// the in-flight total drops by one without going below zero.
pub open spec fn finished<T>(s0: FairScheduler<T>, s1: FairScheduler<T>, p: Seq<char>) -> bool {
    &&& s1.running_count(p) == if s0.running_count(p) > 0 {
        (s0.running_count(p) - 1) as nat
    } else {
        0nat
    }
    &&& forall|q: Seq<char>| q != p ==> #[trigger] s1.running_count(q) == s0.running_count(q)
    &&& s1.in_flight_view() == if s0.in_flight_view() > 0 {
        (s0.in_flight_view() - 1) as usize
    } else {
        0usize
    }
    &&& s1.queue_view() == s0.queue_view()
    &&& s1.max_view() == s0.max_view()
    &&& s1.next_seq_view() == s0.next_seq_view()
}

/// Releasing the slot of a job that was just started restores every project's
/// in-flight count and the in-flight total.
pub proof fn law_finish_releases_started_slot<T>(
    s0: FairScheduler<T>,
    s1: FairScheduler<T>,
    s2: FairScheduler<T>,
    p: Seq<char>,
)
    requires
        started(s0, s1, p),
        finished(s1, s2, p),
    ensures
        forall|q: Seq<char>| #[trigger] s2.running_count(q) == s0.running_count(q),
        s2.in_flight_view() == s0.in_flight_view(),
{
    assert forall|q: Seq<char>| #[trigger] s2.running_count(q) == s0.running_count(q) by {
        if q == p {
        } else {
            assert(s2.running_count(q) == s1.running_count(q));
        }
    }
}

proof fn lemma_remove_keeps_ordered<T>(q: Seq<QueueEntry<T>>, b: int, bound: u64)
    requires
        0 <= b < q.len(),
        ordered_queue(q),
        forall|i: int| 0 <= i < q.len() ==> (#[trigger] q[i]).seq < bound,
    ensures
        ordered_queue(q.remove(b)),
        forall|i: int| 0 <= i < q.remove(b).len() ==> (#[trigger] q.remove(b)[i]).seq < bound,
{
    let r = q.remove(b);
    assert forall|i: int, j: int| 0 <= i < j < r.len() implies (#[trigger] r[i]).project_id@ != (
    #[trigger] r[j]).project_id@ && r[i].seq < r[j].seq by {
        let oi = if i < b {
            i
        } else {
            i + 1
        };
        let oj = if j < b {
            j
        } else {
            j + 1
        };
        assert(r[i] == q[oi] && r[j] == q[oj]);
    }
    assert forall|i: int| 0 <= i < r.len() implies (#[trigger] r[i]).seq < bound by {
        let oi = if i < b {
            i
        } else {
            i + 1
        };
        assert(r[i] == q[oi]);
    }
}

impl<T> FairScheduler<T> {
    /// Pick the next job to run, or `None` when at capacity or idle. The chosen
    /// job is the queued one whose project has the fewest jobs in flight, ties
    /// broken by arrival order; it leaves the queue and takes a slot.
    pub fn next_runnable(&mut self) -> (r: Option<(String, T)>)
        requires
            old(self).wf(),
        ensures
            final(self).wf(),
            final(self).max_view() == old(self).max_view(),
            final(self).next_seq_view() == old(self).next_seq_view(),
            (old(self).in_flight_view() >= old(self).max_view() || old(self).queue_view().len()
                == 0) ==> r is None && final(self).queue_view() == old(self).queue_view()
                && final(self).running_view() == old(self).running_view()
                && final(self).in_flight_view() == old(self).in_flight_view(),
            !(old(self).in_flight_view() >= old(self).max_view() || old(self).queue_view().len()
                == 0) ==> r is Some,
            r matches Some((p, job)) ==> exists|b: int|
                0 <= b < old(self).queue_view().len() && (#[trigger] old(self).queue_view()[b]).project_id@
                    == p@ && old(self).queue_view()[b].job == job && (forall|k: int|
                    0 <= k < old(self).queue_view().len() && k != b ==> key_lt(
                        old(self).key_of(b),
                        #[trigger] old(self).key_of(k),
                    )) && final(self).queue_view() == old(self).queue_view().remove(b) && started(
                    *old(self),
                    *final(self),
                    p@,
                ),
            final(self).in_flight_view() <= final(self).max_view() || final(self).in_flight_view()
                == old(self).in_flight_view(),
    {
        if self.in_flight >= self.max_concurrency || self.queue.len() == 0 {
            return None;
        }
        let ghost s0 = *self;
        let mut best: usize = 0;
        let mut best_run: u64 = self.count_of(self.queue[0].project_id.as_str());
        let mut best_seq: u64 = self.queue[0].seq;
        let mut i: usize = 1;
        while i < self.queue.len()
            invariant
                self.wf(),
                *self == s0,
                1 <= i <= self.queue@.len(),
                best < i,
                best_run == self.key_of(best as int).0,
                best_seq == self.key_of(best as int).1,
                forall|k: int|
                    0 <= k < i && k != best ==> key_lt(
                        self.key_of(best as int),
                        #[trigger] self.key_of(k),
                    ),
            decreases self.queue.len() - i,
        {
            let run = self.count_of(self.queue[i].project_id.as_str());
            let sq = self.queue[i].seq;
            proof {
                assert(self.queue@[best as int].seq < self.queue@[i as int].seq);
            }
            if run < best_run || (run == best_run && sq < best_seq) {
                best = i;
                best_run = run;
                best_seq = sq;
            }
            i = i + 1;
        }
        let ghost q0 = self.queue@;
        let ghost next0 = self.next_seq;
        let entry = self.queue.remove(best);
        proof {
            lemma_remove_keeps_ordered(q0, best as int, next0);
        }
        let found = self.find_running(entry.project_id.as_str());
        let ghost r0 = self.running@;
        match found {
            Some(idx) => {
                let c = self.running[idx].count;
                let updated = RunningCount { project_id: entry.project_id.clone(), count: c + 1 };
                self.running.set(idx, updated);
                proof {
                    assert forall|q: Seq<char>| true implies count_for(self.running@, q) + (if r0[idx as int].project_id@ == q {
                        r0[idx as int].count as nat
                    } else {
                        0nat
                    }) == count_for(r0, q) + (if entry.project_id@ == q {
                        (c + 1) as nat
                    } else {
                        0nat
                    }) by {
                        lemma_count_update(r0, idx as int, updated, q);
                    }
                }
            },
            None => {
                let fresh = RunningCount { project_id: entry.project_id.clone(), count: 1 };
                self.running.push(fresh);
                proof {
                    assert(self.running@.drop_last() =~= r0);
                }
            },
        }
        self.in_flight = self.in_flight + 1;
        proof {
            assert forall|q: Seq<char>| q != entry.project_id@ implies #[trigger] self.running_count(q)
                == s0.running_count(q) by {
                if found is Some {
                    let idx = found->0;
                    lemma_count_update(r0, idx as int, self.running@[idx as int], q);
                }
            }
            if found is Some {
                let idx = found->0;
                lemma_count_update(r0, idx as int, self.running@[idx as int], entry.project_id@);
            }
            assert(self.queue@ == q0.remove(best as int));
            assert(0 <= best < q0.len() && q0[best as int].project_id@ == entry.project_id@);
        }
        Some((entry.project_id, entry.job))
    }

    /// Release a slot held by a finished (or skipped) job for `project_id`.
    pub fn finish(&mut self, project_id: &str)
        requires
            old(self).wf(),
        ensures
            final(self).wf(),
            finished(*old(self), *final(self), project_id@),
    {
        let ghost r0 = self.running@;
        let found = self.find_running(project_id);
        match found {
            Some(idx) => {
                let c = self.running[idx].count;
                if c - 1 == 0 {
                    self.running.remove(idx);
                    proof {
                        assert forall|q: Seq<char>| true implies count_for(self.running@, q) + (if r0[idx as int].project_id@ == q {
                            r0[idx as int].count as nat
                        } else {
                            0nat
                        }) == count_for(r0, q) by {
                            lemma_count_remove(r0, idx as int, q);
                        }
                        let r1 = self.running@;
                        assert forall|i: int, j: int|
                            0 <= i < j < r1.len() implies (#[trigger] r1[i]).project_id@ != (
                            #[trigger] r1[j]).project_id@ by {
                            let oi = if i < idx {
                                i
                            } else {
                                i + 1
                            };
                            let oj = if j < idx {
                                j
                            } else {
                                j + 1
                            };
                            assert(r1[i] == r0[oi] && r1[j] == r0[oj]);
                        }
                        assert forall|i: int| 0 <= i < r1.len() implies (#[trigger] r1[i]).count
                            >= 1 by {
                            let oi = if i < idx {
                                i
                            } else {
                                i + 1
                            };
                            assert(r1[i] == r0[oi]);
                        }
                    }
                } else {
                    let updated = RunningCount {
                        project_id: self.running[idx].project_id.clone(),
                        count: c - 1,
                    };
                    self.running.set(idx, updated);
                    proof {
                        assert forall|q: Seq<char>| true implies count_for(self.running@, q) + (if r0[idx as int].project_id@ == q {
                            r0[idx as int].count as nat
                        } else {
                            0nat
                        }) == count_for(r0, q) + (if updated.project_id@ == q {
                            (c - 1) as nat
                        } else {
                            0nat
                        }) by {
                            lemma_count_update(r0, idx as int, updated, q);
                        }
                    }
                }
            },
            None => {},
        }
        if self.in_flight > 0 {
            self.in_flight = self.in_flight - 1;
        }
    }
}

proof fn lemma_jobs_of_none<T>(q: Seq<QueueEntry<T>>, p: Seq<char>)
    requires
        forall|i: int| 0 <= i < q.len() ==> (#[trigger] q[i]).project_id@ != p,
    ensures
        jobs_of(q, p).len() == 0,
    decreases q.len(),
{
    if q.len() > 0 {
        lemma_jobs_of_none(q.drop_last(), p);
    }
}

proof fn lemma_jobs_of_unique<T>(q: Seq<QueueEntry<T>>, p: Seq<char>, k: int)
    requires
        ordered_queue(q),
        0 <= k < q.len(),
        q[k].project_id@ == p,
    ensures
        jobs_of(q, p) == seq![q[k].job],
    decreases q.len(),
{
    let d = q.drop_last();
    assert(ordered_queue(d)) by {
        assert forall|i: int, j: int| 0 <= i < j < d.len() implies (#[trigger] d[i]).project_id@ != (
        #[trigger] d[j]).project_id@ && d[i].seq < d[j].seq by {
            assert(d[i] == q[i] && d[j] == q[j]);
        }
    }
    if k == q.len() - 1 {
        assert forall|i: int| 0 <= i < d.len() implies (#[trigger] d[i]).project_id@ != p by {
            assert(d[i] == q[i]);
        }
        lemma_jobs_of_none(d, p);
        assert(jobs_of(d, p) =~= Seq::<T>::empty());
        assert(jobs_of(q, p) =~= seq![q[k].job]);
    } else {
        lemma_jobs_of_unique(d, p, k);
        assert(q.last().project_id@ != p);
    }
}

impl<T> FairScheduler<T> {
    /// The job queued for `project_id`, if any (there is at most one).
    pub fn queued_job(&self, project_id: &str) -> (r: Option<&T>)
        requires
            self.wf(),
        ensures
            match r {
                None => jobs_of(self.queue_view(), project_id@).len() == 0,
                Some(j) => jobs_of(self.queue_view(), project_id@) == seq![*j],
            },
    {
        let mut i: usize = 0;
        while i < self.queue.len()
            invariant
                self.wf(),
                i <= self.queue@.len(),
                forall|j: int| 0 <= j < i ==> (#[trigger] self.queue@[j]).project_id@ != project_id@,
            decreases self.queue.len() - i,
        {
            if str_eq(self.queue[i].project_id.as_str(), project_id) {
                proof {
                    assert(ordered_queue(self.queue@));
                    lemma_jobs_of_unique(self.queue@, project_id@, i as int);
                }
                return Some(&self.queue[i].job);
            }
            i = i + 1;
        }
        proof {
            lemma_jobs_of_none(self.queue@, project_id@);
        }
        None
    }
}

// ---- the render service -------------------------------------------------------------

/// What the scheduler needs of a render job: its project, commit and the
/// order in which it was submitted.
#[derive(Debug, Clone, PartialEq, Eq)]
pub struct RenderJobTicket {
    pub project_id: String,
    pub commit_hash: String,
    /// Taken when the job was submitted, before any delay.
    pub enqueue_sequence: u64,
}

/// The latest submission sequence recorded per project.
pub struct SubmissionLedger {
    latest: Vec<(String, u64)>,
}

pub open spec fn ledger_map(e: Seq<(String, u64)>) -> Map<Seq<char>, u64>
    decreases e.len(),
{
    if e.len() == 0 {
        Map::empty()
    } else {
        ledger_map(e.drop_last()).insert(e.last().0@, e.last().1)
    }
}

proof fn lemma_ledger_absent(e: Seq<(String, u64)>, p: Seq<char>)
    requires
        forall|j: int| 0 <= j < e.len() ==> (#[trigger] e[j]).0@ != p,
    ensures
        !ledger_map(e).dom().contains(p),
    decreases e.len(),
{
    if e.len() > 0 {
        lemma_ledger_absent(e.drop_last(), p);
    }
}

proof fn lemma_ledger_at(e: Seq<(String, u64)>, i: int)
    requires
        0 <= i < e.len(),
        forall|a: int, b: int| 0 <= a < b < e.len() ==> (#[trigger] e[a]).0@ != (#[trigger] e[b]).0@,
    ensures
        ledger_map(e).dom().contains(e[i].0@),
        ledger_map(e)[e[i].0@] == e[i].1,
    decreases e.len(),
{
    if i < e.len() - 1 {
        lemma_ledger_at(e.drop_last(), i);
    }
}

proof fn lemma_ledger_set(e: Seq<(String, u64)>, i: int, k: String, v: u64)
    requires
        0 <= i < e.len(),
        k@ == e[i].0@,
        forall|a: int, b: int| 0 <= a < b < e.len() ==> (#[trigger] e[a]).0@ != (#[trigger] e[b]).0@,
    ensures
        ledger_map(e.update(i, (k, v))) == ledger_map(e).insert(k@, v),
    decreases e.len(),
{
    let u = e.update(i, (k, v));
    if i == e.len() - 1 {
        assert(u.drop_last() =~= e.drop_last());
        assert(ledger_map(u) =~= ledger_map(e).insert(k@, v));
    } else {
        assert(u.drop_last() =~= e.drop_last().update(i, (k, v)));
        lemma_ledger_set(e.drop_last(), i, k, v);
        assert(e.last().0@ != e[i].0@);
        assert(ledger_map(u) =~= ledger_map(e).insert(k@, v));
    }
}

impl SubmissionLedger {
    /// The latest recorded sequence of each project.
    pub closed spec fn view(&self) -> Map<Seq<char>, u64> {
        ledger_map(self.latest@)
    }

    pub closed spec fn wf(&self) -> bool {
        forall|a: int, b: int| 0 <= a < b < self.latest@.len() ==> (#[trigger] self.latest@[a]).0@ != (
        #[trigger] self.latest@[b]).0@
    }

    pub fn new() -> (r: SubmissionLedger)
        ensures
            r.wf(),
            r.view() == Map::<Seq<char>, u64>::empty(),
    {
        SubmissionLedger { latest: Vec::new() }
    }

    fn find(&self, project_id: &str) -> (r: Option<usize>)
        requires
            self.wf(),
        ensures
            match r {
                Some(i) => i < self.latest@.len() && self.latest@[i as int].0@ == project_id@,
                None => forall|j: int| 0 <= j < self.latest@.len() ==> (#[trigger] self.latest@[j]).0@ != project_id@,
            },
    {
        let mut i: usize = 0;
        while i < self.latest.len()
            invariant
                i <= self.latest@.len(),
                forall|j: int| 0 <= j < i ==> (#[trigger] self.latest@[j]).0@ != project_id@,
            decreases self.latest.len() - i,
        {
            if str_eq(self.latest[i].0.as_str(), project_id) {
                return Some(i);
            }
            i = i + 1;
        }
        None
    }

    /// Record `sequence` as the project's latest submission.
    pub fn register_submission(&mut self, project_id: &str, sequence: u64)
        requires
            old(self).wf(),
        ensures
            final(self).wf(),
            final(self).view() == old(self).view().insert(project_id@, sequence),
    {
        match self.find(project_id) {
            Some(i) => {
                let ghost e = self.latest@;
                let k = self.latest[i].0.clone();
                self.latest.set(i, (k, sequence));
                proof {
                    lemma_ledger_set(e, i as int, k, sequence);
                    assert forall|a: int, b: int| 0 <= a < b < self.latest@.len() implies (
                    #[trigger] self.latest@[a]).0@ != (#[trigger] self.latest@[b]).0@ by {
                        assert(e[a].0@ != e[b].0@);
                    }
                }
            },
            None => {
                let ghost e = self.latest@;
                self.latest.push((crate::text::owned(project_id), sequence));
                proof {
                    assert(self.latest@.drop_last() =~= e);
                    assert forall|a: int, b: int| 0 <= a < b < self.latest@.len() implies (
                    #[trigger] self.latest@[a]).0@ != (#[trigger] self.latest@[b]).0@ by {
                        if b == e.len() {
                            assert(self.latest@[a] == e[a]);
                        } else {
                            assert(self.latest@[a] == e[a] && self.latest@[b] == e[b]);
                        }
                    }
                }
            },
        }
    }

    /// Whether `sequence` is the latest submission recorded for the project.
    pub fn is_latest_submission(&self, project_id: &str, sequence: u64) -> (r: bool)
        requires
            self.wf(),
        ensures
            r == (self.view().dom().contains(project_id@) && self.view()[project_id@] == sequence),
    {
        match self.find(project_id) {
            Some(i) => {
                proof {
                    lemma_ledger_at(self.latest@, i as int);
                }
                self.latest[i].1 == sequence
            },
            None => {
                proof {
                    lemma_ledger_absent(self.latest@, project_id@);
                }
                false
            },
        }
    }
}

/// Once `s` is registered for project `p` (the ledger going from `before` to
/// `after`), `s` is the latest submission of `p`, no other sequence is, and
/// every other project's latest submission is unchanged.
pub proof fn law_registered_submission_is_latest(
    before: SubmissionLedger,
    after: SubmissionLedger,
    p: Seq<char>,
    s: u64,
    t: u64,
    q: Seq<char>,
)
    requires
        after.view() == before.view().insert(p, s),
    ensures
        after.view().dom().contains(p) && after.view()[p] == s,
        t != s ==> !(after.view().dom().contains(p) && after.view()[p] == t),
        q != p ==> (after.view().dom().contains(q) == before.view().dom().contains(q)),
        q != p && before.view().dom().contains(q) ==> after.view()[q] == before.view()[q],
{
}

/// The process-wide render queue: the fair scheduler plus the submission ledger.
pub struct RenderService {
    queue_core: FairScheduler<RenderJobTicket>,
    ledger: SubmissionLedger,
}

/// Whether a submission is dropped: the project already has queued work that
/// it is not newer than.
pub open spec fn submission_dropped(queued: Seq<RenderJobTicket>, job: RenderJobTicket) -> bool {
    queued.len() > 0 && !(job.enqueue_sequence > queued[0].enqueue_sequence)
}

impl RenderService {
    pub closed spec fn scheduler(&self) -> FairScheduler<RenderJobTicket> {
        self.queue_core
    }

    pub closed spec fn ledger(&self) -> SubmissionLedger {
        self.ledger
    }

    pub closed spec fn wf(&self) -> bool {
        self.queue_core.wf() && self.ledger.wf()
    }

    /// An idle service, seeded with a cap of one.
    pub fn new() -> (r: RenderService)
        ensures
            r.wf(),
            r.scheduler().queue_view().len() == 0,
            r.scheduler().in_flight_view() == 0,
            r.scheduler().max_view() == 1,
            r.ledger().view() == Map::<Seq<char>, u64>::empty(),
    {
        RenderService { queue_core: FairScheduler::new(1), ledger: SubmissionLedger::new() }
    }

    pub fn register_submission(&mut self, project_id: &str, sequence: u64)
        requires
            old(self).wf(),
        ensures
            final(self).wf(),
            final(self).ledger().view() == old(self).ledger().view().insert(project_id@, sequence),
            final(self).scheduler() == old(self).scheduler(),
    {
        self.ledger.register_submission(project_id, sequence);
    }

    pub fn is_latest_submission(&self, project_id: &str, sequence: u64) -> (r: bool)
        requires
            self.wf(),
        ensures
            r == (self.ledger().view().dom().contains(project_id@) && self.ledger().view()[project_id@] == sequence),
    {
        self.ledger.is_latest_submission(project_id, sequence)
    }

    /// Queue a job under the latest cap, unless the project's queued work is
    /// already at least as new (a delayed older submission must not displace
    /// it). Returns whether the job was queued.
    pub fn submit(&mut self, job: RenderJobTicket, max_concurrency: usize) -> (queued: bool)
        requires
            old(self).wf(),
            old(self).scheduler().next_seq_view() < u64::MAX,
        ensures
            final(self).wf(),
            final(self).ledger() == old(self).ledger(),
            final(self).scheduler().max_view() == if max_concurrency >= 1 {
                max_concurrency
            } else {
                1
            },
            queued == !submission_dropped(jobs_of(old(self).scheduler().queue_view(), job.project_id@), job),
            !queued ==> final(self).scheduler().queue_view() == old(self).scheduler().queue_view(),
            queued ==> final(self).scheduler().queue_view().drop_last() == other_projects(
                old(self).scheduler().queue_view(),
                job.project_id@,
            ) && final(self).scheduler().queue_view().last().job == job,
            final(self).scheduler().running_view() == old(self).scheduler().running_view(),
            final(self).scheduler().in_flight_view() == old(self).scheduler().in_flight_view(),
    {
        self.queue_core.set_max_concurrency(max_concurrency);
        let drop = match self.queue_core.queued_job(job.project_id.as_str()) {
            Some(q) => !queued_submission_is_newer(q.enqueue_sequence, job.enqueue_sequence),
            None => false,
        };
        if drop {
            return false;
        }
        let project_id = job.project_id.clone();
        let _ = self.queue_core.enqueue(project_id, job);
        true
    }

    /// Take the next runnable job, if the cap allows one.
    pub fn next_runnable(&mut self) -> (r: Option<(String, RenderJobTicket)>)
        requires
            old(self).wf(),
        ensures
            final(self).wf(),
            final(self).ledger() == old(self).ledger(),
            (old(self).in_flight_view_is_full() || old(self).scheduler().queue_view().len() == 0) ==> r is None,
            !(old(self).in_flight_view_is_full() || old(self).scheduler().queue_view().len() == 0) ==> (r matches Some(
                (p, job),
            ) && started(old(self).scheduler(), final(self).scheduler(), p@)),
    {
        self.queue_core.next_runnable()
    }

    pub open spec fn in_flight_view_is_full(&self) -> bool {
        self.scheduler().in_flight_view() >= self.scheduler().max_view()
    }

    /// Release the slot of a finished job of `project_id`.
    pub fn finish(&mut self, project_id: &str)
        requires
            old(self).wf(),
        ensures
            final(self).wf(),
            final(self).ledger() == old(self).ledger(),
            finished(old(self).scheduler(), final(self).scheduler(), project_id@),
    {
        self.queue_core.finish(project_id);
    }
}

proof fn lemma_jobs_of_other_projects<T>(q: Seq<QueueEntry<T>>, p: Seq<char>)
    ensures
        jobs_of(other_projects(q, p), p).len() == 0,
    decreases q.len(),
{
    if q.len() > 0 {
        lemma_jobs_of_other_projects(q.drop_last(), p);
        if q.last().project_id@ != p {
            lemma_other_projects_push(other_projects(q.drop_last(), p), q.last(), p);
        }
    }
}

/// Queuing a commit supersedes the project's queued work: afterwards the new
/// job is the only one queued for that project.
pub proof fn law_enqueue_leaves_only_newest<T>(s0: FairScheduler<T>, s1: FairScheduler<T>, p: Seq<char>, job: T)
    requires
        s1.queue_view().len() > 0,
        s1.queue_view().drop_last() == other_projects(s0.queue_view(), p),
        s1.queue_view().last().project_id@ == p,
        s1.queue_view().last().job == job,
    ensures
        jobs_of(s1.queue_view(), p) == seq![job],
{
    let q1 = s1.queue_view();
    lemma_jobs_of_other_projects(s0.queue_view(), p);
    assert(q1 == q1.drop_last().push(q1.last()));
    lemma_other_projects_push(q1.drop_last(), q1.last(), p);
    assert(jobs_of(q1.drop_last(), p) =~= Seq::<T>::empty());
    assert(jobs_of(q1, p) =~= seq![job]);
}

} // verus!
