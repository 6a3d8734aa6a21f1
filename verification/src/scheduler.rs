use vstd::prelude::*;

use crate::clock::{
    all_wf, cron_next_after, next_after, read_clock, shortest_wait, wait_nanos, ClockError, Delay,
    Instant, LAST_SECOND, NANOS_PER_SEC,
};
use crate::job::{Job, JobType};

verus! {

/// How often the scheduler is ticked when it runs by itself, in milliseconds.
pub const TICK_INTERVAL_MILLIS: u64 = 500;

/// The jobs of the scheduler, in the order they were added.
pub struct JobScheduler<T> {
    jobs: Vec<Job<T>>,
}

impl<T> View for JobScheduler<T> {
    type V = Seq<Job<T>>;

    closed spec fn view(&self) -> Seq<Job<T>> {
        self.jobs@
    }
}

impl<T> Default for JobScheduler<T> {
    fn default() -> (s: JobScheduler<T>)
        ensures
            s@ == Seq::<Job<T>>::empty(),
    {
        JobScheduler::new()
    }
}

/// `job` once it has been stopped.
pub open spec fn stopped_job<T>(job: Job<T>) -> Job<T> {
    Job { stopped: true, ..job }
}

/// Whether a job carries an identifier other than `id`.
pub open spec fn carries_other_id<T>(id: uuid::Uuid) -> spec_fn(Job<T>) -> bool {
    |j: Job<T>| j.id != id
}

/// Whether a job carries the identifier `id`.
pub open spec fn carries_id<T>(id: uuid::Uuid) -> spec_fn(Job<T>) -> bool {
    |j: Job<T>| j.id == id
}

/// The jobs that stay when the jobs carrying `id` are taken out.
pub open spec fn jobs_without<T>(jobs: Seq<Job<T>>, id: uuid::Uuid) -> Seq<Job<T>> {
    jobs.filter(carries_other_id(id))
}

/// The jobs carrying `id`, stopped, in their order.
pub open spec fn jobs_taken<T>(jobs: Seq<Job<T>>, id: uuid::Uuid) -> Seq<Job<T>> {
    jobs.filter(carries_id(id)).map_values(|j: Job<T>| stopped_job(j))
}

/// A job that fires on a tick: its position among the jobs, and whether it is
/// a one-shot job, to be taken out of the scheduler once it has run.
#[derive(Clone, Copy, Debug, PartialEq, Eq, Structural)]
pub struct FireOrder {
    pub index: usize,
    pub remove_after_run: bool,
}

/// What a tick does with the job at position `i` once the job has answered
/// whether it is due: nothing, or run it (and take it out afterwards if it is
/// a one-shot job).
pub open spec fn fire_order_for<T>(jobs: Seq<Job<T>>, i: int, due: bool) -> Option<FireOrder> {
    if due {
        Some(
            FireOrder {
                index: i as usize,
                remove_after_run: jobs[i].job_type == JobType::OneShot,
            },
        )
    } else {
        None
    }
}

/// Whether the job at position `i` answered that it is due.
pub open spec fn is_due(due: Seq<bool>, i: int) -> bool {
    0 <= i < due.len() && due[i]
}

/// The orders of a whole tick over the jobs before position `n`, in job
/// order, when `due[i]` is the answer of the job at position `i`.
pub open spec fn fire_orders<T>(jobs: Seq<Job<T>>, due: Seq<bool>, n: nat) -> Seq<FireOrder>
    decreases n,
{
    if n == 0 {
        Seq::empty()
    } else {
        let i = (n - 1) as nat;
        let prev = fire_orders(jobs, due, i);
        match fire_order_for(jobs, i as int, is_due(due, i as int)) {
            Some(o) => prev.push(o),
            None => prev,
        }
    }
}

/// What the scheduler waits for when it holds no job: half a second.
pub open spec fn idle_wait() -> Delay {
    Delay { secs: 0, nanos: 500_000_000 }
}

/// The next run of `job` after `now`: the first instant of its cron
/// expression, if it has one. Within the last second of chrono's range cron
/// is not asked (it has no instant there).
pub open spec fn next_run<T>(job: Job<T>, now: Instant) -> Option<Instant> {
    match job.schedule {
        Some(expr) => if now.secs < LAST_SECOND {
            cron_next_after(expr@, now.secs as int, now.nanos as int)
        } else {
            None
        },
        None => None,
    }
}

/// The next runs of `jobs` after `now`, one per job.
pub open spec fn next_runs<T>(jobs: Seq<Job<T>>, now: Instant) -> Seq<Option<Instant>> {
    Seq::new(jobs.len(), |i: int| next_run(jobs[i], now))
}

/// At `now`, the wait for the earliest next run of `jobs` is `d`.
pub open spec fn waits_at<T>(jobs: Seq<Job<T>>, now: Instant, d: Delay) -> bool {
    &&& now.wf()
    &&& d.total_nanos() == wait_nanos(now, next_runs(jobs, now))
}

/// `d` is the wait for the earliest next run of `jobs` at some time the
/// system clock can read: not before the Unix epoch, not past chrono's range.
pub open spec fn waits_at_some_reading<T>(jobs: Seq<Job<T>>, d: Delay) -> bool {
    exists|now: Instant|
        #![trigger waits_at(jobs, now, d)]
        0 <= now.secs <= LAST_SECOND && now.nanos < NANOS_PER_SEC && waits_at(jobs, now, d)
}

impl<T> JobScheduler<T> {
    /// A scheduler without jobs.
    pub fn new() -> (s: JobScheduler<T>)
        ensures
            s@ == Seq::<Job<T>>::empty(),
    {
        JobScheduler { jobs: Vec::new() }
    }

    /// The number of jobs.
    pub fn len(&self) -> (n: usize)
        ensures
            n == self@.len(),
    {
        self.jobs.len()
    }

    /// Whether there are no jobs.
    pub fn is_empty(&self) -> (b: bool)
        ensures
            b == (self@.len() == 0),
    {
        self.jobs.len() == 0
    }

    /// The job at position `i`.
    pub fn job(&self, i: usize) -> (j: &Job<T>)
        requires
            i < self@.len(),
        ensures
            *j == self@[i as int],
    {
        &self.jobs[i]
    }

    /// The task of the job at position `i`, to be ticked or run.
    pub fn task_mut(&mut self, i: usize) -> (t: &mut T)
        requires
            i < old(self)@.len(),
        ensures
            *t == old(self)@[i as int].task,
            final(self)@ == old(self)@.update(i as int, Job { task: *final(t), ..old(self)@[i as int] }),
    {
        &mut self.jobs[i].task
    }

    /// Adds a job after the others, and gives back its identifier.
    pub fn add(&mut self, job: Job<T>) -> (id: uuid::Uuid)
        ensures
            final(self)@ == old(self)@.push(job),
            id == job.id,
    {
        let id = job.id;
        self.jobs.push(job);
        id
    }

    /// Decides what a tick does with the job at position `i`, given whether
    /// the job answered that it is due: a job that is due is run, and a
    /// one-shot job is also taken out of the scheduler.
    pub fn tick_job(&self, i: usize, due: bool) -> (order: Option<FireOrder>)
        requires
            i < self@.len(),
        ensures
            order == fire_order_for(self@, i as int, due),
    {
        if due {
            let remove_after_run = match self.jobs[i].job_type {
                JobType::OneShot => true,
                _ => false,
            };
            Some(FireOrder { index: i, remove_after_run })
        } else {
            None
        }
    }

    /// How long, at `now`, until the next cron job is due: half a second when
    /// there is no job at all; otherwise the wait for the earliest next run of
    /// the jobs' own cron expressions, and nothing when no job has a run to
    /// come or the earliest run has passed.
    pub fn time_till_next_job_at(&self, now: Instant) -> (d: Delay)
        requires
            now.wf(),
        ensures
            d.wf(),
            self@.len() == 0 ==> d == idle_wait(),
            self@.len() > 0 ==> waits_at(self@, now, d),
    {
        if self.jobs.len() == 0 {
            return Delay { secs: 0, nanos: 500_000_000 };
        }
        let mut nexts: Vec<Option<Instant>> = Vec::new();
        let n = self.jobs.len();
        let mut i: usize = 0;
        while i < n
            invariant
                i <= n,
                n == self@.len(),
                now.wf(),
                nexts@.len() == i,
                all_wf(nexts@),
                forall|k: int| 0 <= k < i ==> #[trigger] nexts@[k] == next_run(self@[k], now),
            decreases n - i,
        {
            let next = match &self.jobs[i].schedule {
                Some(expr) => if now.secs < LAST_SECOND {
                    next_after(expr, now)
                } else {
                    None
                },
                None => None,
            };
            nexts.push(next);
            proof {
                assert(nexts@[i as int] == next);
            }
            i = i + 1;
        }
        let d = shortest_wait(now, &nexts);
        proof {
            assert(nexts@ =~= next_runs(self@, now));
        }
        d
    }

    /// How long until the next cron job is due, measured from the system
    /// clock: half a second when there is no job at all (the clock is not
    /// read); otherwise `time_till_next_job_at` the time read, or why the
    /// clock gave none.
    pub fn time_till_next_job(&self) -> (r: Result<Delay, ClockError>)
        ensures
            self@.len() == 0 ==> r == Ok::<Delay, ClockError>(idle_wait()),
            r matches Ok(d) ==> d.wf(),
            self@.len() > 0 ==> (r matches Ok(d) ==> waits_at_some_reading(self@, d)),
    {
        if self.jobs.len() == 0 {
            return Ok(Delay { secs: 0, nanos: 500_000_000 });
        }
        match read_clock() {
            Ok(now) => {
                let d = self.time_till_next_job_at(now);
                proof {
                    assert(waits_at(self@, now, d));
                    assert(0 <= now.secs <= LAST_SECOND && now.nanos < NANOS_PER_SEC);
                    assert(waits_at_some_reading(self@, d));
                }
                Ok(d)
            },
            Err(e) => Err(e),
        }
    }

    /// Takes the jobs carrying `to_be_removed` out of the scheduler and stops
    /// them. Returns them, in their order, so that the caller can abort the
    /// tasks of those that need it.
    pub fn remove(&mut self, to_be_removed: &uuid::Uuid) -> (removed: Vec<Job<T>>)
        ensures
            final(self)@ == jobs_without(old(self)@, *to_be_removed),
            removed@ == jobs_taken(old(self)@, *to_be_removed),
    {
        let mut rest: Vec<Job<T>> = Vec::new();
        std::mem::swap(&mut rest, &mut self.jobs);
        let ghost orig = rest@;
        let ghost id = *to_be_removed;
        let ghost mut k: int = 0;
        let mut removed: Vec<Job<T>> = Vec::new();
        proof {
            assert(orig.take(0) =~= Seq::<Job<T>>::empty());
            assert(orig.skip(0) =~= orig);
        }
        while rest.len() > 0
            invariant
                0 <= k <= orig.len(),
                rest@ == orig.skip(k),
                self.jobs@ == jobs_without(orig.take(k), id),
                removed@ == jobs_taken(orig.take(k), id),
                id == *to_be_removed,
            decreases rest.len(),
        {
            let mut job = rest.remove(0);
            proof {
                assert(orig.take(k + 1) =~= orig.take(k).push(orig[k]));
                assert(job == orig[k]);
                assert(rest@ =~= orig.skip(k + 1));
                orig.take(k).lemma_filter_push(orig[k], carries_id(id));
                orig.take(k).lemma_filter_push(orig[k], carries_other_id(id));
            }
            if job.has_id(to_be_removed) {
                job.stopped = true;
                removed.push(job);
                proof {
                    let f = |j: Job<T>| stopped_job(j);
                    assert(orig.take(k + 1).filter(carries_id(id)).map_values(f) =~= orig.take(
                        k,
                    ).filter(carries_id(id)).map_values(f).push(f(orig[k])));
                }
            } else {
                self.jobs.push(job);
            }
            proof {
                k = k + 1;
            }
        }
        proof {
            assert(orig.take(k) =~= orig);
        }
        removed
    }
}

} // verus!
