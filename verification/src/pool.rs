//! The scheduling of a batch run: images are taken in order, at most
//! `workers` of them are processed at once, and their outcomes are reported
//! in image order, however the processing interleaves.
use vstd::prelude::*;

verus! {

/// How many of `outcomes` are still unknown.
pub open spec fn pending_count(outcomes: Seq<Option<bool>>) -> nat
    decreases outcomes.len(),
{
    if outcomes.len() == 0 {
        0
    } else {
        pending_count(outcomes.drop_last()) + if outcomes.last() is None {
            1nat
        } else {
            0nat
        }
    }
}

/// How many of `outcomes` are the outcome `ok`.
pub open spec fn outcome_count(outcomes: Seq<Option<bool>>, ok: bool) -> nat
    decreases outcomes.len(),
{
    if outcomes.len() == 0 {
        0
    } else {
        outcome_count(outcomes.drop_last(), ok) + if outcomes.last() == Some(ok) {
            1nat
        } else {
            0nat
        }
    }
}

/// The state of a worker pool, as a reader of its contracts sees it.
pub struct PoolState {
    /// How many images may be processed at once.
    pub workers: nat,
    /// The outcome of each image: `None` until it is finished, then whether
    /// it succeeded.
    pub outcomes: Seq<Option<bool>>,
    /// The images `0..started` have been started.
    pub started: nat,
    /// How many started images are not finished.
    pub running: nat,
    /// The outcomes of the images `0..reported` have been reported.
    pub reported: nat,
    /// How many reported images succeeded.
    pub succeeded: nat,
    /// How many reported images failed.
    pub failed: nat,
}

/// The schedule of a batch run over a number of images with a number of
/// workers.
pub struct WorkerPool {
    workers: usize,
    outcomes: Vec<Option<bool>>,
    started: usize,
    running: usize,
    reported: usize,
    succeeded: u32,
    failed: u32,
}

impl View for WorkerPool {
    type V = PoolState;

    closed spec fn view(&self) -> PoolState {
        PoolState {
            workers: self.workers as nat,
            outcomes: self.outcomes@,
            started: self.started as nat,
            running: self.running as nat,
            reported: self.reported as nat,
            succeeded: self.succeeded as nat,
            failed: self.failed as nat,
        }
    }
}

/// The rules a pool's state keeps.
pub open spec fn pool_valid(s: PoolState) -> bool {
    &&& s.outcomes.len() <= u32::MAX
    &&& s.reported <= s.started <= s.outcomes.len()
    &&& s.running == pending_count(s.outcomes.take(s.started as int))
    &&& s.running <= s.workers
    &&& forall|i: int| s.started <= i < s.outcomes.len() ==> s.outcomes[i] is None
    &&& forall|i: int| 0 <= i < s.reported ==> s.outcomes[i] is Some
    &&& s.succeeded == outcome_count(s.outcomes.take(s.reported as int), true)
    &&& s.failed == outcome_count(s.outcomes.take(s.reported as int), false)
}

/// Whether another image can be started now.
pub open spec fn can_start_now(s: PoolState) -> bool {
    s.started < s.outcomes.len() && s.running < s.workers
}

/// Whether the outcome of the next image in order is known and unreported.
pub open spec fn report_ready(s: PoolState) -> bool {
    s.reported < s.outcomes.len() && s.outcomes[s.reported as int] is Some
}

/// Whether every outcome has been reported.
pub open spec fn pool_done(s: PoolState) -> bool {
    s.reported == s.outcomes.len()
}

proof fn lemma_pending_push(s: Seq<Option<bool>>, x: Option<bool>)
    ensures
        pending_count(s.push(x)) == pending_count(s) + if x is None {
            1nat
        } else {
            0nat
        },
{
    assert(s.push(x).drop_last() =~= s);
}

proof fn lemma_outcome_push(s: Seq<Option<bool>>, x: Option<bool>, ok: bool)
    ensures
        outcome_count(s.push(x), ok) == outcome_count(s, ok) + if x == Some(ok) {
            1nat
        } else {
            0nat
        },
{
    assert(s.push(x).drop_last() =~= s);
}

/// Finishing an unfinished image lowers the pending count by one.
proof fn lemma_pending_update(s: Seq<Option<bool>>, i: int, b: bool)
    requires
        0 <= i < s.len(),
        s[i] is None,
    ensures
        pending_count(s.update(i, Some(b))) + 1 == pending_count(s),
    decreases s.len(),
{
    let t = s.update(i, Some(b));
    if i == s.len() - 1 {
        assert(t.drop_last() =~= s.drop_last());
    } else {
        assert(t.drop_last() =~= s.drop_last().update(i, Some(b)));
        lemma_pending_update(s.drop_last(), i, b);
    }
}

/// With nothing pending, every outcome is known.
proof fn lemma_no_pending(s: Seq<Option<bool>>)
    requires
        pending_count(s) == 0,
    ensures
        forall|i: int| 0 <= i < s.len() ==> s[i] is Some,
    decreases s.len(),
{
    if s.len() > 0 {
        lemma_no_pending(s.drop_last());
        assert forall|i: int| 0 <= i < s.len() implies s[i] is Some by {
            if i < s.len() - 1 {
                assert(s[i] == s.drop_last()[i]);
            }
        }
    }
}

/// With something pending, some outcome is unknown.
proof fn lemma_some_pending(s: Seq<Option<bool>>) -> (i: int)
    requires
        pending_count(s) > 0,
    ensures
        0 <= i < s.len(),
        s[i] is None,
    decreases s.len(),
{
    if s.last() is None {
        s.len() - 1
    } else {
        let j = lemma_some_pending(s.drop_last());
        assert(s[j] == s.drop_last()[j]);
        j
    }
}

/// Known outcomes split into successes and failures.
proof fn lemma_outcomes_split(s: Seq<Option<bool>>)
    requires
        forall|i: int| 0 <= i < s.len() ==> s[i] is Some,
    ensures
        outcome_count(s, true) + outcome_count(s, false) == s.len(),
    decreases s.len(),
{
    if s.len() > 0 {
        assert forall|i: int| 0 <= i < s.drop_last().len() implies s.drop_last()[i] is Some by {
            assert(s.drop_last()[i] == s[i]);
        }
        lemma_outcomes_split(s.drop_last());
        assert(s.last() == s[s.len() - 1]);
        let b = s.last()->0;
        assert(s.last() == Some(b));
        if b {
            assert(outcome_count(s, true) == outcome_count(s.drop_last(), true) + 1);
            assert(outcome_count(s, false) == outcome_count(s.drop_last(), false));
        } else {
            assert(outcome_count(s, true) == outcome_count(s.drop_last(), true));
            assert(outcome_count(s, false) == outcome_count(s.drop_last(), false) + 1);
        }
    }
}

/// No more images are running than there are workers.
pub proof fn pool_runs_at_most_workers(pool: WorkerPool)
    requires
        pool_valid(pool@),
    ensures
        pool@.running <= pool@.workers,
{
}

/// The pool uses every worker: an image can be started exactly when one
/// is still waiting and fewer images are running than there are workers.
pub proof fn pool_starts_whenever_a_worker_is_free(pool: WorkerPool)
    requires
        pool_valid(pool@),
    ensures
        can_start_now(pool@) <==> (pool@.started < pool@.outcomes.len() && pool@.running
            < pool@.workers),
{
}

/// A pool with at least one worker never stalls: until every outcome is
/// reported, it can start an image, or report one, or has images running
/// whose outcome it awaits (one of which is then unfinished).
pub proof fn pool_never_stalls(pool: WorkerPool)
    requires
        pool_valid(pool@),
        pool@.workers >= 1,
        !pool_done(pool@),
    ensures
        can_start_now(pool@) || report_ready(pool@) || pool@.running > 0,
        pool@.running > 0 ==> exists|i: int|
            0 <= i < pool@.started && #[trigger] pool@.outcomes[i] is None,
{
    let s = pool@;
    let done = s.outcomes.take(s.started as int);
    if s.running == 0 {
        lemma_no_pending(done);
        if s.reported < s.started {
            assert(done[s.reported as int] == s.outcomes[s.reported as int]);
        }
    } else {
        let i = lemma_some_pending(done);
        assert(done[i] == s.outcomes[i]);
    }
}

/// When every outcome is reported, each image was counted exactly once:
/// the successes and failures add up to the number of images.
pub proof fn pool_counts_every_image(pool: WorkerPool)
    requires
        pool_valid(pool@),
        pool_done(pool@),
    ensures
        pool@.succeeded + pool@.failed == pool@.outcomes.len(),
        pool@.succeeded == outcome_count(pool@.outcomes, true),
        pool@.failed == outcome_count(pool@.outcomes, false),
{
    let s = pool@;
    assert(s.outcomes.take(s.reported as int) =~= s.outcomes);
    lemma_outcomes_split(s.outcomes);
}

impl WorkerPool {
    /// A pool for `total` images and `workers` workers, before any image
    /// has started.
    pub fn new(total: usize, workers: usize) -> (pool: Self)
        requires
            total <= u32::MAX,
        ensures
            pool_valid(pool@),
            pool@.workers == workers,
            pool@.outcomes == Seq::new(total as nat, |i: int| None::<bool>),
            pool@.started == 0,
            pool@.reported == 0,
    {
        let mut outcomes: Vec<Option<bool>> = Vec::new();
        let mut i: usize = 0;
        while i < total
            invariant
                i <= total,
                outcomes@ == Seq::new(i as nat, |j: int| None::<bool>),
            decreases total - i,
        {
            outcomes.push(None);
            i = i + 1;
        }
        let pool = WorkerPool {
            workers,
            outcomes,
            started: 0,
            running: 0,
            reported: 0,
            succeeded: 0,
            failed: 0,
        };
        assert(pool@.outcomes.take(0) =~= Seq::<Option<bool>>::empty());
        pool
    }

    /// The number of images.
    pub fn total(&self) -> (n: usize)
        ensures
            n == self@.outcomes.len(),
    {
        self.outcomes.len()
    }

    /// The number of started images that are not finished.
    pub fn running(&self) -> (n: usize)
        ensures
            n == self@.running,
    {
        self.running
    }

    /// How many reported images succeeded.
    pub fn succeeded(&self) -> (n: u32)
        ensures
            n == self@.succeeded,
    {
        self.succeeded
    }

    /// How many reported images failed.
    pub fn failed(&self) -> (n: u32)
        ensures
            n == self@.failed,
    {
        self.failed
    }

    /// Whether another image can be started now: one is left and a worker
    /// is free.
    pub fn can_start(&self) -> (r: bool)
        ensures
            r == can_start_now(self@),
    {
        self.started < self.outcomes.len() && self.running < self.workers
    }

    /// Whether image `index` has been started and is not finished.
    pub fn is_running(&self, index: usize) -> (r: bool)
        ensures
            r == (index < self@.started && index < self@.outcomes.len()
                && self@.outcomes[index as int] is None),
    {
        index < self.started && index < self.outcomes.len() && self.outcomes[index].is_none()
    }

    /// Whether every outcome has been reported.
    pub fn is_done(&self) -> (r: bool)
        ensures
            r == pool_done(self@),
    {
        self.reported == self.outcomes.len()
    }

    /// Starts the next image in order and returns its index.
    pub fn start(&mut self) -> (index: usize)
        requires
            pool_valid(old(self)@),
            can_start_now(old(self)@),
        ensures
            pool_valid(final(self)@),
            index == old(self)@.started,
            final(self)@ == (PoolState {
                started: old(self)@.started + 1,
                running: old(self)@.running + 1,
                ..old(self)@
            }),
    {
        let index = self.started;
        proof {
            let s = old(self)@;
            assert(s.outcomes.take(index + 1) =~= s.outcomes.take(index as int).push(
                s.outcomes[index as int],
            ));
            lemma_pending_push(s.outcomes.take(index as int), s.outcomes[index as int]);
        }
        self.started = index + 1;
        self.running = self.running + 1;
        index
    }

    /// Records the outcome of the running image `index`.
    pub fn finish(&mut self, index: usize, ok: bool)
        requires
            pool_valid(old(self)@),
            index < old(self)@.started,
            old(self)@.outcomes[index as int] is None,
        ensures
            pool_valid(final(self)@),
            final(self)@ == (PoolState {
                outcomes: old(self)@.outcomes.update(index as int, Some(ok)),
                running: (old(self)@.running - 1) as nat,
                ..old(self)@
            }),
    {
        proof {
            let s = old(self)@;
            let t = s.outcomes.update(index as int, Some(ok));
            assert(t.take(s.started as int) =~= s.outcomes.take(s.started as int).update(
                index as int,
                Some(ok),
            ));
            lemma_pending_update(s.outcomes.take(s.started as int), index as int, ok);
            assert(index >= s.reported);
            assert(t.take(s.reported as int) =~= s.outcomes.take(s.reported as int));
        }
        self.outcomes.set(index, Some(ok));
        self.running = self.running - 1;
    }

    /// Reports the outcome of the next image in order, when it is known:
    /// its index and whether it succeeded, counted in the totals.
    pub fn next_report(&mut self) -> (r: Option<(usize, bool)>)
        requires
            pool_valid(old(self)@),
        ensures
            pool_valid(final(self)@),
            report_ready(old(self)@) ==> {
                let ok = old(self)@.outcomes[old(self)@.reported as int]->0;
                &&& r == Some((old(self)@.reported as usize, ok))
                &&& final(self)@ == (PoolState {
                    reported: old(self)@.reported + 1,
                    succeeded: old(self)@.succeeded + if ok {
                        1nat
                    } else {
                        0nat
                    },
                    failed: old(self)@.failed + if ok {
                        0nat
                    } else {
                        1nat
                    },
                    ..old(self)@
                })
            },
            !report_ready(old(self)@) ==> r is None && final(self)@ == old(self)@,
    {
        if self.reported < self.outcomes.len() {
            match self.outcomes[self.reported] {
                Some(ok) => {
                    let index = self.reported;
                    proof {
                        let s = old(self)@;
                        assert(index < s.started) by {
                            if index >= s.started {
                                assert(s.outcomes[index as int] is None);
                            }
                        }
                        assert(s.outcomes.take(index + 1) =~= s.outcomes.take(index as int).push(
                            Some(ok),
                        ));
                        lemma_outcome_push(s.outcomes.take(index as int), Some(ok), true);
                        lemma_outcome_push(s.outcomes.take(index as int), Some(ok), false);
                        lemma_outcomes_split(s.outcomes.take(index as int));
                    }
                    if ok {
                        self.succeeded = self.succeeded + 1;
                    } else {
                        self.failed = self.failed + 1;
                    }
                    self.reported = index + 1;
                    return Some((index, ok));
                },
                None => {},
            }
        }
        None
    }
}

} // verus!
