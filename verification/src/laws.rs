use vstd::prelude::*;

use crate::clock::{cron_next_after, earliest_wait, wait_nanos, Delay, Instant, LAST_SECOND};
use crate::job::{Job, JobType};
use crate::scheduler::{
    fire_order_for, fire_orders, is_due, next_run, next_runs, waits_at, jobs_taken, jobs_without, carries_other_id, carries_id, stopped_job, FireOrder,
};

verus! {

proof fn lemma_filter_keeps_all<T>(s: Seq<Job<T>>, p: spec_fn(Job<T>) -> bool)
    requires
        forall|i: int| 0 <= i < s.len() ==> p(#[trigger] s[i]),
    ensures
        s.filter(p) == s,
    decreases s.len(),
{
    reveal(Seq::filter);
    if s.len() > 0 {
        lemma_filter_keeps_all(s.drop_last(), p);
        assert(s.drop_last().push(s.last()) =~= s);
    }
}

proof fn lemma_filter_keeps_none<T>(s: Seq<Job<T>>, p: spec_fn(Job<T>) -> bool)
    requires
        forall|i: int| 0 <= i < s.len() ==> !p(#[trigger] s[i]),
    ensures
        s.filter(p).len() == 0,
    decreases s.len(),
{
    reveal(Seq::filter);
    if s.len() > 0 {
        lemma_filter_keeps_none(s.drop_last(), p);
    }
}

proof fn lemma_split_len<T>(s: Seq<Job<T>>, id: uuid::Uuid)
    ensures
        s.filter(carries_other_id(id)).len() + s.filter(carries_id(id)).len() == s.len(),
    decreases s.len(),
{
    reveal(Seq::filter);
    if s.len() > 0 {
        lemma_split_len(s.drop_last(), id);
    }
}

/// Removing the identifier of a job just added, when no other job carries it,
/// gives back the jobs from before the addition, and hands out just that job,
/// stopped.
pub proof fn remove_undoes_add<T>(jobs: Seq<Job<T>>, job: Job<T>)
    requires
        forall|i: int| 0 <= i < jobs.len() ==> (#[trigger] jobs[i]).id != job.id,
    ensures
        jobs_without(jobs.push(job), job.id) == jobs,
        jobs_taken(jobs.push(job), job.id) == seq![stopped_job(job)],
{
    jobs.lemma_filter_push(job, carries_other_id(job.id));
    jobs.lemma_filter_push(job, carries_id(job.id));
    lemma_filter_keeps_all(jobs, carries_other_id(job.id));
    lemma_filter_keeps_none(jobs, carries_id(job.id));
    let f = |j: Job<T>| stopped_job(j);
    assert(jobs.filter(carries_id(job.id)) =~= Seq::<Job<T>>::empty());
    assert(jobs.filter(carries_id(job.id)).push(job).map_values(f) =~= seq![stopped_job(job)]);
}

/// After a removal no job carries the identifier, so removing it again
/// changes nothing and hands out nothing.
pub proof fn remove_is_idempotent<T>(jobs: Seq<Job<T>>, id: uuid::Uuid)
    ensures
        forall|i: int|
            0 <= i < jobs_without(jobs, id).len() ==> (#[trigger] jobs_without(jobs, id)[i]).id
                != id,
        jobs_without(jobs_without(jobs, id), id) == jobs_without(jobs, id),
        jobs_taken(jobs_without(jobs, id), id).len() == 0,
{
    broadcast use vstd::seq_lib::group_filter_ensures;

    let rest = jobs_without(jobs, id);
    assert forall|i: int| 0 <= i < rest.len() implies (#[trigger] rest[i]).id != id by {
        assert(carries_other_id(id)(rest[i]));
    }
    lemma_filter_keeps_all(rest, carries_other_id(id));
    lemma_filter_keeps_none(rest, carries_id(id));
}

/// A removal splits the jobs in two: those that stay, none of which carries
/// the identifier, and those handed out, each of which carries it and is
/// stopped. No job is lost or made up.
pub proof fn remove_splits_jobs<T>(jobs: Seq<Job<T>>, id: uuid::Uuid)
    ensures
        jobs_without(jobs, id).len() + jobs_taken(jobs, id).len() == jobs.len(),
        forall|i: int|
            0 <= i < jobs_without(jobs, id).len() ==> jobs.contains(
                #[trigger] jobs_without(jobs, id)[i],
            ) && jobs_without(jobs, id)[i].id != id,
        forall|i: int|
            0 <= i < jobs_taken(jobs, id).len() ==> (#[trigger] jobs_taken(jobs, id)[i]).id == id
                && jobs_taken(jobs, id)[i].stopped,
        forall|i: int|
            0 <= i < jobs.len() && (#[trigger] jobs[i]).id != id ==> jobs_without(
                jobs,
                id,
            ).contains(jobs[i]),
{
    broadcast use vstd::seq_lib::group_filter_ensures;

    lemma_split_len(jobs, id);
    let rest = jobs_without(jobs, id);
    let taken = jobs.filter(carries_id(id));
    assert forall|i: int| 0 <= i < rest.len() implies jobs.contains(#[trigger] rest[i]) && rest[i].id
        != id by {
        assert(carries_other_id(id)(rest[i]));
        assert(rest.contains(rest[i]));
        jobs.lemma_filter_contains_rev(carries_other_id(id), rest[i]);
    }
    assert forall|i: int|
        0 <= i < jobs_taken(jobs, id).len() implies (#[trigger] jobs_taken(jobs, id)[i]).id == id
        && jobs_taken(jobs, id)[i].stopped by {
        assert(carries_id(id)(taken[i]));
    }
    assert forall|i: int| 0 <= i < jobs.len() && (#[trigger] jobs[i]).id != id implies rest.contains(
        jobs[i],
    ) by {
        assert(carries_other_id(id)(jobs[i]));
        jobs.lemma_filter_contains(carries_other_id(id), i);
    }
}

/// Each order of a tick names a job that reported itself due, orders come in
/// job order, a job is taken out after its run exactly when it is a one-shot
/// job, and every job that reported itself due is run.
pub proof fn tick_runs_exactly_the_due_jobs<T>(jobs: Seq<Job<T>>, due: Seq<bool>, n: nat)
    requires
        n <= jobs.len() <= usize::MAX,
    ensures
        forall|k: int|
            #![trigger fire_orders(jobs, due, n)[k]]
            0 <= k < fire_orders(jobs, due, n).len() ==> {
                let o = fire_orders(jobs, due, n)[k];
                &&& o.index < n
                &&& is_due(due, o.index as int)
                &&& o.remove_after_run == (jobs[o.index as int].job_type == JobType::OneShot)
            },
        forall|k1: int, k2: int|
            0 <= k1 < k2 < fire_orders(jobs, due, n).len() ==> (#[trigger] fire_orders(
                jobs,
                due,
                n,
            )[k1]).index < (#[trigger] fire_orders(jobs, due, n)[k2]).index,
        forall|i: int|
            0 <= i < n && is_due(due, i) ==> exists|k: int|
                0 <= k < fire_orders(jobs, due, n).len() && (#[trigger] fire_orders(
                    jobs,
                    due,
                    n,
                )[k]).index == i,
    decreases n,
{
    if n > 0 {
        let m = (n - 1) as nat;
        tick_runs_exactly_the_due_jobs(jobs, due, m);
        let prev = fire_orders(jobs, due, m);
        let cur = fire_orders(jobs, due, n);
        if is_due(due, m as int) {
            let o = FireOrder {
                index: m as usize,
                remove_after_run: jobs[m as int].job_type == JobType::OneShot,
            };
            assert(fire_order_for(jobs, m as int, true) == Some(o));
            assert(cur == prev.push(o));
            assert forall|i: int| 0 <= i < n && is_due(due, i) implies exists|k: int|
                0 <= k < cur.len() && (#[trigger] cur[k]).index == i by {
                if i == m {
                    assert(cur[prev.len() as int].index == i);
                } else {
                    let k = choose|k: int| 0 <= k < prev.len() && (#[trigger] prev[k]).index == i;
                    assert(cur[k] == prev[k]);
                }
            }
            assert forall|k1: int, k2: int| 0 <= k1 < k2 < cur.len() implies (#[trigger] cur[k1]).index
                < (#[trigger] cur[k2]).index by {
                if k2 < prev.len() {
                    assert(cur[k1] == prev[k1] && cur[k2] == prev[k2]);
                } else {
                    assert(cur[k1] == prev[k1]);
                }
            }
            assert forall|k: int| #![trigger cur[k]] 0 <= k < cur.len() implies {
                let o = cur[k];
                &&& o.index < n
                &&& is_due(due, o.index as int)
                &&& o.remove_after_run == (jobs[o.index as int].job_type == JobType::OneShot)
            } by {
                if k < prev.len() {
                    assert(cur[k] == prev[k]);
                }
            }
        } else {
            assert(cur == prev);
            assert forall|i: int| 0 <= i < n && is_due(due, i) implies exists|k: int|
                0 <= k < cur.len() && (#[trigger] cur[k]).index == i by {
                let k = choose|k: int| 0 <= k < prev.len() && (#[trigger] prev[k]).index == i;
            }
        }
    }
}

/// The wait is the shortest one: never longer than the time until any
/// instant present; when some instant is present, exactly the time until one
/// of them (nothing if that one has passed); when none is, nothing.
pub proof fn shortest_wait_is_least(now: Instant, nexts: Seq<Option<Instant>>)
    ensures
        forall|i: int|
            0 <= i < nexts.len() && (#[trigger] nexts[i]) is Some ==> wait_nanos(now, nexts) <= if nexts[i]->0.total_nanos() - now.total_nanos() > 0 {
                nexts[i]->0.total_nanos() - now.total_nanos()
            } else {
                0
            },
        (exists|i: int| 0 <= i < nexts.len() && (#[trigger] nexts[i]) is Some) ==> exists|i: int|
            0 <= i < nexts.len() && (#[trigger] nexts[i]) is Some && wait_nanos(now, nexts) == if nexts[i]->0.total_nanos() - now.total_nanos() > 0 {
                nexts[i]->0.total_nanos() - now.total_nanos()
            } else {
                0
            },
        (forall|i: int| 0 <= i < nexts.len() ==> (#[trigger] nexts[i]) is None) ==> wait_nanos(
            now,
            nexts,
        ) == 0,
{
    earliest_wait_is_least(now, nexts);
    if exists|i: int| 0 <= i < nexts.len() && (#[trigger] nexts[i]) is Some {
        let j = choose|i: int| 0 <= i < nexts.len() && (#[trigger] nexts[i]) is Some;
        assert(earliest_wait(now, nexts) is Some);
    }
}

/// An instant added to the list of next instants lowers the earliest wait to
/// its own time when that is earlier; an absent one changes nothing.
pub proof fn earliest_wait_push(now: Instant, nexts: Seq<Option<Instant>>, next: Option<Instant>)
    ensures
        next is None ==> earliest_wait(now, nexts.push(next)) == earliest_wait(now, nexts),
        next matches Some(t) ==> earliest_wait(now, nexts.push(next)) == Some(
            match earliest_wait(now, nexts) {
                Some(r) => if t.total_nanos() - now.total_nanos() < r {
                    t.total_nanos() - now.total_nanos()
                } else {
                    r
                },
                None => t.total_nanos() - now.total_nanos(),
            },
        ),
{
    assert(nexts.push(next).drop_last() =~= nexts);
}

/// The earliest wait is no longer than the time until any instant present,
/// and when there is one it is the time until one of them.
pub proof fn earliest_wait_is_least(now: Instant, nexts: Seq<Option<Instant>>)
    ensures
        forall|i: int|
            0 <= i < nexts.len() && (#[trigger] nexts[i]) is Some ==> earliest_wait(now, nexts) is Some
                && earliest_wait(now, nexts)->0 <= nexts[i]->0.total_nanos() - now.total_nanos(),
        earliest_wait(now, nexts) is Some ==> exists|i: int|
            0 <= i < nexts.len() && (#[trigger] nexts[i]) is Some && nexts[i]->0.total_nanos()
                - now.total_nanos() == earliest_wait(now, nexts)->0,
    decreases nexts.len(),
{
    if nexts.len() > 0 {
        let rest = nexts.drop_last();
        earliest_wait_is_least(now, rest);
        let last = nexts.len() - 1;
        assert(nexts.last() == nexts[last]);
        assert forall|i: int| 0 <= i < nexts.len() && (#[trigger] nexts[i]) is Some implies earliest_wait(
            now,
            nexts,
        ) is Some && earliest_wait(now, nexts)->0 <= nexts[i]->0.total_nanos() - now.total_nanos() by {
            if i < last {
                assert(rest[i] == nexts[i]);
            }
        }
        if earliest_wait(now, nexts) is Some {
            if nexts[last] is Some && (earliest_wait(now, rest) is None
                || nexts[last]->0.total_nanos() - now.total_nanos() < earliest_wait(now, rest)->0) {
                assert(nexts[last]->0.total_nanos() - now.total_nanos() == earliest_wait(now, nexts)->0);
            } else {
                let i = choose|i: int|
                    0 <= i < rest.len() && (#[trigger] rest[i]) is Some && rest[i]->0.total_nanos()
                        - now.total_nanos() == earliest_wait(now, rest)->0;
                assert(nexts[i] == rest[i]);
            }
        }
    }
}

/// Nothing when `n` is not positive, else `n`.
pub open spec fn clipped(n: int) -> int {
    if n > 0 {
        n
    } else {
        0
    }
}

/// At any time, the wait for the jobs is never longer than the time until any
/// job's next run; when some job has a run to come it is exactly the time until
/// one of those runs (nothing if that run has passed); when none has, nothing.
pub proof fn job_wait_is_least<T>(jobs: Seq<Job<T>>, now: Instant)
    ensures
        forall|i: int|
            0 <= i < jobs.len() && (#[trigger] next_run(jobs[i], now)) is Some ==> wait_nanos(
                now,
                next_runs(jobs, now),
            ) <= clipped(next_run(jobs[i], now)->0.total_nanos() - now.total_nanos()),
        (exists|i: int| 0 <= i < jobs.len() && (#[trigger] next_run(jobs[i], now)) is Some)
            ==> exists|i: int|
            0 <= i < jobs.len() && (#[trigger] next_run(jobs[i], now)) is Some && wait_nanos(
                now,
                next_runs(jobs, now),
            ) == clipped(next_run(jobs[i], now)->0.total_nanos() - now.total_nanos()),
        (forall|i: int| 0 <= i < jobs.len() ==> (#[trigger] next_run(jobs[i], now)) is None)
            ==> wait_nanos(now, next_runs(jobs, now)) == 0,
{
    let nexts = next_runs(jobs, now);
    shortest_wait_is_least(now, nexts);
    assert forall|i: int| 0 <= i < jobs.len() implies #[trigger] next_run(jobs[i], now) == nexts[i] by {}
    if exists|i: int| 0 <= i < jobs.len() && (#[trigger] next_run(jobs[i], now)) is Some {
        let j = choose|i: int| 0 <= i < jobs.len() && (#[trigger] next_run(jobs[i], now)) is Some;
        assert(nexts[j] is Some);
        let k = choose|i: int|
            0 <= i < nexts.len() && (#[trigger] nexts[i]) is Some && wait_nanos(now, nexts) == if nexts[i]->0.total_nanos() - now.total_nanos() > 0 {
                nexts[i]->0.total_nanos() - now.total_nanos()
            } else {
                0
            };
        assert(next_run(jobs[k], now) == nexts[k]);
    }
    if forall|i: int| 0 <= i < jobs.len() ==> (#[trigger] next_run(jobs[i], now)) is None {
        assert forall|i: int| 0 <= i < nexts.len() implies (#[trigger] nexts[i]) is None by {
            assert(next_run(jobs[i], now) is None);
        }
    }
}

/// Adding a job changes the wait at a given time only by the job's own next
/// run: a job with none leaves it as it was, and a job with one lowers the
/// earliest wait to the time until that run when it comes sooner.
pub proof fn adding_a_job_to_the_wait<T>(jobs: Seq<Job<T>>, job: Job<T>, now: Instant)
    ensures
        next_runs(jobs.push(job), now) == next_runs(jobs, now).push(next_run(job, now)),
        next_run(job, now) is None ==> wait_nanos(now, next_runs(jobs.push(job), now)) == wait_nanos(
            now,
            next_runs(jobs, now),
        ),
        next_run(job, now) matches Some(t) ==> earliest_wait(now, next_runs(jobs.push(job), now))
            == Some(
            match earliest_wait(now, next_runs(jobs, now)) {
                Some(r) => if t.total_nanos() - now.total_nanos() < r {
                    t.total_nanos() - now.total_nanos()
                } else {
                    r
                },
                None => t.total_nanos() - now.total_nanos(),
            },
        ),
{
    assert(next_runs(jobs.push(job), now) =~= next_runs(jobs, now).push(next_run(job, now)));
    earliest_wait_push(now, next_runs(jobs, now), next_run(job, now));
}

proof fn lemma_filter_positions<A>(s: Seq<A>, p: spec_fn(A) -> bool) -> (idx: Seq<int>)
    ensures
        idx.len() == s.filter(p).len(),
        forall|k: int| 0 <= k < idx.len() ==> 0 <= #[trigger] idx[k] < s.len() && s.filter(p)[k] == s[idx[k]],
        forall|k1: int, k2: int| 0 <= k1 < k2 < idx.len() ==> #[trigger] idx[k1] < #[trigger] idx[k2],
        forall|i: int| 0 <= i < s.len() && p(s[i]) ==> exists|k: int| 0 <= k < idx.len() && #[trigger] idx[k] == i,
    decreases s.len(),
{
    if s.len() == 0 {
        reveal(Seq::filter);
        Seq::empty()
    } else {
        let r = s.drop_last();
        let x = s.last();
        let prev = lemma_filter_positions(r, p);
        assert(r.push(x) =~= s);
        r.lemma_filter_push(x, p);
        let n = s.len() - 1;
        if p(x) {
            let idx = prev.push(n);
            assert forall|i: int| 0 <= i < s.len() && p(s[i]) implies exists|k: int|
                0 <= k < idx.len() && #[trigger] idx[k] == i by {
                if i == n {
                    assert(idx[prev.len() as int] == i);
                } else {
                    assert(r[i] == s[i]);
                    let k = choose|k: int| 0 <= k < prev.len() && #[trigger] prev[k] == i;
                    assert(idx[k] == i);
                }
            }
            assert forall|k: int| 0 <= k < idx.len() implies 0 <= #[trigger] idx[k] < s.len() && s.filter(p)[k] == s[idx[k]] by {
                if k < prev.len() {
                    assert(r[prev[k]] == s[prev[k]]);
                }
            }
            idx
        } else {
            assert forall|i: int| 0 <= i < s.len() && p(s[i]) implies exists|k: int|
                0 <= k < prev.len() && #[trigger] prev[k] == i by {
                assert(i != n);
                assert(r[i] == s[i]);
            }
            assert forall|k: int| 0 <= k < prev.len() implies 0 <= #[trigger] prev[k] < s.len() && s.filter(p)[k] == s[prev[k]] by {
                assert(r[prev[k]] == s[prev[k]]);
            }
            prev
        }
    }
}

/// A removal keeps the jobs that stay in the order they had: each of them
/// is the job at some position of the old list, those positions rise along
/// the new list, and every old job with another identifier has one.
pub proof fn remove_keeps_the_order<T>(jobs: Seq<Job<T>>, id: uuid::Uuid)
    ensures
        exists|pos: Seq<int>|
            #![trigger pos.len()]
            pos.len() == jobs_without(jobs, id).len() && (forall|k: int|
                0 <= k < pos.len() ==> 0 <= #[trigger] pos[k] < jobs.len() && jobs_without(jobs, id)[k]
                    == jobs[pos[k]]) && (forall|k1: int, k2: int|
                0 <= k1 < k2 < pos.len() ==> #[trigger] pos[k1] < #[trigger] pos[k2]) && (forall|i: int|
                0 <= i < jobs.len() && jobs[i].id != id ==> exists|k: int|
                    0 <= k < pos.len() && #[trigger] pos[k] == i),
{
    let pos = lemma_filter_positions(jobs, carries_other_id(id));
    assert forall|i: int| 0 <= i < jobs.len() && jobs[i].id != id implies exists|k: int|
        0 <= k < pos.len() && #[trigger] pos[k] == i by {
        assert(carries_other_id(id)(jobs[i]));
    }
    assert(pos.len() == jobs_without(jobs, id).len());
}

/// Whether stopping a job aborts its task depends on its type alone: never
/// for a cron job, always for a one-shot or a repeated job, whatever the
/// job's schedule, identifier or task.
pub proof fn abort_depends_on_the_type_alone<T>(a: Job<T>, b: Job<T>)
    ensures
        a.job_type == b.job_type ==> a.spec_needs_abort() == b.spec_needs_abort(),
        a.job_type == JobType::Cron ==> !a.spec_needs_abort(),
        a.job_type == JobType::OneShot ==> a.spec_needs_abort(),
        a.job_type == JobType::Repeated ==> a.spec_needs_abort(),
{
}

/// The wait at `now` is measured to each cron job's first run strictly after
/// `now` itself, as cron gives it: never longer than the time until any such
/// run, exactly the time until one of them when there is one (nothing if it
/// has passed), and nothing when no job has one. Within the last second of
/// chrono's range, where cron is not asked, the wait is nothing.
pub proof fn wait_is_measured_from_now<T>(jobs: Seq<Job<T>>, now: Instant, d: Delay)
    requires
        waits_at(jobs, now, d),
    ensures
        now.secs < LAST_SECOND ==> forall|i: int|
            0 <= i < jobs.len() && jobs[i].schedule is Some && (#[trigger] cron_next_after(
                jobs[i].schedule->0@,
                now.secs as int,
                now.nanos as int,
            )) is Some ==> {
                let t = cron_next_after(jobs[i].schedule->0@, now.secs as int, now.nanos as int)->0;
                let gap = (t.secs * 1_000_000_000 + t.nanos) - (now.secs * 1_000_000_000 + now.nanos);
                d.secs * 1_000_000_000 + d.nanos <= if gap > 0 {
                    gap
                } else {
                    0
                }
            },
        now.secs < LAST_SECOND && (exists|i: int|
            0 <= i < jobs.len() && jobs[i].schedule is Some && (#[trigger] cron_next_after(
                jobs[i].schedule->0@,
                now.secs as int,
                now.nanos as int,
            )) is Some) ==> exists|i: int|
            0 <= i < jobs.len() && jobs[i].schedule is Some && (#[trigger] cron_next_after(
                jobs[i].schedule->0@,
                now.secs as int,
                now.nanos as int,
            )) is Some && {
                let t = cron_next_after(jobs[i].schedule->0@, now.secs as int, now.nanos as int)->0;
                let gap = (t.secs * 1_000_000_000 + t.nanos) - (now.secs * 1_000_000_000 + now.nanos);
                d.secs * 1_000_000_000 + d.nanos == if gap > 0 {
                    gap
                } else {
                    0
                }
            },
        (now.secs >= LAST_SECOND || forall|i: int|
            0 <= i < jobs.len() ==> (#[trigger] jobs[i]).schedule is None || cron_next_after(
                jobs[i].schedule->0@,
                now.secs as int,
                now.nanos as int,
            ) is None) ==> d.secs * 1_000_000_000 + d.nanos == 0,
{
    job_wait_is_least(jobs, now);
    assert forall|i: int| 0 <= i < jobs.len() implies #[trigger] next_run(jobs[i], now) == (if jobs[i].schedule is Some
        && now.secs < LAST_SECOND {
        cron_next_after(jobs[i].schedule->0@, now.secs as int, now.nanos as int)
    } else {
        None
    }) by {}
    if now.secs < LAST_SECOND {
        assert forall|i: int|
            0 <= i < jobs.len() && jobs[i].schedule is Some && (#[trigger] cron_next_after(
                jobs[i].schedule->0@,
                now.secs as int,
                now.nanos as int,
            )) is Some implies {
                let t = cron_next_after(jobs[i].schedule->0@, now.secs as int, now.nanos as int)->0;
                let gap = (t.secs * 1_000_000_000 + t.nanos) - (now.secs * 1_000_000_000 + now.nanos);
                d.secs * 1_000_000_000 + d.nanos <= if gap > 0 {
                    gap
                } else {
                    0
                }
            } by {
            assert(next_run(jobs[i], now) is Some);
        }
    }
    if now.secs < LAST_SECOND && exists|i: int|
        0 <= i < jobs.len() && jobs[i].schedule is Some && (#[trigger] cron_next_after(
            jobs[i].schedule->0@,
            now.secs as int,
            now.nanos as int,
        )) is Some {
        let j = choose|i: int|
            0 <= i < jobs.len() && jobs[i].schedule is Some && (#[trigger] cron_next_after(
                jobs[i].schedule->0@,
                now.secs as int,
                now.nanos as int,
            )) is Some;
        assert(next_run(jobs[j], now) is Some);
        let k = choose|i: int|
            0 <= i < jobs.len() && (#[trigger] next_run(jobs[i], now)) is Some && wait_nanos(
                now,
                next_runs(jobs, now),
            ) == clipped(next_run(jobs[i], now)->0.total_nanos() - now.total_nanos());
        assert(cron_next_after(jobs[k].schedule->0@, now.secs as int, now.nanos as int) is Some);
    }
    if now.secs >= LAST_SECOND || forall|i: int|
        0 <= i < jobs.len() ==> (#[trigger] jobs[i]).schedule is None || cron_next_after(
            jobs[i].schedule->0@,
            now.secs as int,
            now.nanos as int,
        ) is None {
        assert forall|i: int| 0 <= i < jobs.len() implies (#[trigger] next_run(jobs[i], now)) is None by {
            if now.secs < LAST_SECOND {
                assert(jobs[i].schedule is None || cron_next_after(
                    jobs[i].schedule->0@,
                    now.secs as int,
                    now.nanos as int,
                ) is None);
            }
        }
    }
}

} // verus!
