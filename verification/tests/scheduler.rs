use tokio_cron_scheduler::{
    instant_since_epoch, read_clock, shortest_wait, ClockError, Delay, FireOrder, Instant, Job,
    JobScheduler, JobType,
};
use uuid::Uuid;

fn job(n: u128, job_type: JobType) -> Job<u32> {
    Job::new(Uuid::from_u128(n), job_type, None, n as u32)
}

fn cron_job(n: u128, expr: &str) -> Job<u32> {
    Job::new(Uuid::from_u128(n), JobType::Cron, Some(expr.to_string()), n as u32)
}

fn ids(s: &JobScheduler<u32>) -> Vec<u128> {
    (0..s.len()).map(|i| s.job(i).job_id().as_u128()).collect()
}

#[test]
fn new_scheduler_is_empty() {
    let s = JobScheduler::<u32>::new();
    assert!(s.is_empty());
    assert_eq!(s.len(), 0);
    let d = JobScheduler::<u32>::default();
    assert!(d.is_empty());
}

#[test]
fn add_appends_in_order() {
    let mut s = JobScheduler::<u32>::new();
    s.add(job(1, JobType::Cron));
    s.add(job(2, JobType::OneShot));
    s.add(job(3, JobType::Repeated));
    assert_eq!(ids(&s), vec![1, 2, 3]);
    assert!(!s.job(1).stopped);
    assert_eq!(s.job(1).job_type, JobType::OneShot);
}

#[test]
fn remove_takes_out_only_the_matching_job() {
    let mut s = JobScheduler::<u32>::new();
    s.add(job(1, JobType::Cron));
    s.add(job(2, JobType::OneShot));
    s.add(job(3, JobType::Repeated));
    let removed = s.remove(&Uuid::from_u128(2));
    assert_eq!(ids(&s), vec![1, 3]);
    assert_eq!(removed.len(), 1);
    assert_eq!(removed[0].job_id().as_u128(), 2);
    assert!(removed[0].stopped);
    assert!(removed[0].needs_abort());
    assert!(!s.job(0).stopped);
    assert!(!s.job(1).stopped);
}

#[test]
fn remove_takes_out_every_job_with_the_id() {
    let mut s = JobScheduler::<u32>::new();
    s.add(job(7, JobType::Cron));
    s.add(job(1, JobType::Cron));
    s.add(job(7, JobType::Repeated));
    let removed = s.remove(&Uuid::from_u128(7));
    assert_eq!(ids(&s), vec![1]);
    assert_eq!(removed.len(), 2);
    assert_eq!(removed[0].job_type, JobType::Cron);
    assert_eq!(removed[1].job_type, JobType::Repeated);
    assert!(!removed[0].needs_abort());
    assert!(removed[1].needs_abort());
}

#[test]
fn remove_of_unknown_id_changes_nothing() {
    let mut s = JobScheduler::<u32>::new();
    s.add(job(1, JobType::Cron));
    s.add(job(2, JobType::Cron));
    let removed = s.remove(&Uuid::from_u128(9));
    assert!(removed.is_empty());
    assert_eq!(ids(&s), vec![1, 2]);
}

#[test]
fn remove_twice_is_remove_once() {
    let mut s = JobScheduler::<u32>::new();
    s.add(job(1, JobType::OneShot));
    s.add(job(2, JobType::Cron));
    assert_eq!(s.remove(&Uuid::from_u128(1)).len(), 1);
    assert!(s.remove(&Uuid::from_u128(1)).is_empty());
    assert_eq!(ids(&s), vec![2]);
}

#[test]
fn remove_undoes_add() {
    let mut s = JobScheduler::<u32>::new();
    s.add(job(1, JobType::Cron));
    s.add(job(2, JobType::Repeated));
    let id = Uuid::new_v4();
    s.add(Job::new(id, JobType::OneShot, None, 0));
    let removed = s.remove(&id);
    assert_eq!(ids(&s), vec![1, 2]);
    assert_eq!(removed.len(), 1);
    assert_eq!(removed[0].job_id(), id);
}

fn tick_all(s: &JobScheduler<u32>, due: &[bool]) -> Vec<FireOrder> {
    (0..s.len()).filter_map(|i| s.tick_job(i, due[i])).collect()
}

#[test]
fn tick_runs_due_jobs_and_drops_one_shots() {
    let mut s = JobScheduler::<u32>::new();
    s.add(job(1, JobType::Cron));
    s.add(job(2, JobType::OneShot));
    s.add(job(3, JobType::Repeated));
    s.add(job(4, JobType::OneShot));
    let orders = tick_all(&s, &[true, true, false, false]);
    assert_eq!(
        orders,
        vec![
            FireOrder { index: 0, remove_after_run: false },
            FireOrder { index: 1, remove_after_run: true },
        ]
    );
    assert_eq!(s.len(), 4);
}

#[test]
fn tick_job_decides_per_job() {
    let mut s = JobScheduler::<u32>::new();
    s.add(job(1, JobType::Repeated));
    s.add(job(2, JobType::OneShot));
    assert_eq!(s.tick_job(0, true), Some(FireOrder { index: 0, remove_after_run: false }));
    assert_eq!(s.tick_job(1, true), Some(FireOrder { index: 1, remove_after_run: true }));
    assert_eq!(s.tick_job(0, false), None);
    assert_eq!(s.tick_job(1, false), None);
}

#[test]
fn add_gives_back_the_id() {
    let mut s = JobScheduler::<u32>::new();
    let id = Uuid::new_v4();
    let got = s.add(Job::new(id, JobType::OneShot, None, 5));
    assert_eq!(got, id);
    assert_eq!(s.remove(&got).len(), 1);
    assert!(s.is_empty());
}

#[test]
fn task_mut_changes_only_that_task() {
    let mut s = JobScheduler::<u32>::new();
    s.add(job(1, JobType::Cron));
    s.add(job(2, JobType::Cron));
    *s.task_mut(1) = 20;
    assert_eq!(s.job(0).task, 1);
    assert_eq!(s.job(1).task, 20);
    assert_eq!(ids(&s), vec![1, 2]);
}

/// 2026-01-01T11:59:59Z.
const BEFORE_NOON: i64 = 1_767_268_799;

fn at(secs: i64, nanos: u32) -> Instant {
    Instant { secs, nanos }
}

#[test]
fn time_till_next_job_without_jobs_is_half_a_second() {
    let s = JobScheduler::<u32>::new();
    assert_eq!(s.time_till_next_job(), Ok(Delay { secs: 0, nanos: 500_000_000 }));
    assert_eq!(s.time_till_next_job_at(at(BEFORE_NOON, 0)), Delay { secs: 0, nanos: 500_000_000 });
}

#[test]
fn time_till_next_job_without_cron_jobs_is_zero() {
    let mut s = JobScheduler::<u32>::new();
    s.add(job(1, JobType::Repeated));
    s.add(job(2, JobType::OneShot));
    assert_eq!(s.time_till_next_job(), Ok(Delay { secs: 0, nanos: 0 }));
    assert_eq!(s.time_till_next_job_at(at(BEFORE_NOON, 0)), Delay { secs: 0, nanos: 0 });
}

#[test]
fn time_till_next_job_reads_the_clock() {
    let mut s = JobScheduler::<u32>::new();
    s.add(cron_job(1, "* * * * * * *"));
    let d = s.time_till_next_job().unwrap();
    assert_eq!(d.secs, 0);
    assert!(d.nanos < 1_000_000_000);
}

#[test]
fn read_clock_gives_a_time_after_the_epoch() {
    let now = read_clock().unwrap();
    // Later than 2020-01-01.
    assert!(now.secs > 1_577_836_800);
    assert!(now.nanos < 1_000_000_000);
}

#[test]
fn instant_since_epoch_stops_at_chrono_range() {
    assert_eq!(instant_since_epoch(5, 7), Ok(Instant { secs: 5, nanos: 7 }));
    assert_eq!(
        instant_since_epoch(8_210_266_876_799, 0),
        Ok(Instant { secs: 8_210_266_876_799, nanos: 0 })
    );
    assert_eq!(instant_since_epoch(8_210_266_876_800, 0), Err(ClockError::OutOfRange));
}

#[test]
fn time_till_next_job_at_follows_the_schedule() {
    let mut s = JobScheduler::<u32>::new();
    s.add(cron_job(1, "0 0 12 * * * *"));
    assert_eq!(s.time_till_next_job_at(at(BEFORE_NOON, 0)), Delay { secs: 1, nanos: 0 });
    assert_eq!(
        s.time_till_next_job_at(at(BEFORE_NOON, 250_000_000)),
        Delay { secs: 0, nanos: 750_000_000 }
    );
    assert_eq!(s.time_till_next_job_at(at(0, 0)), Delay { secs: 43_200, nanos: 0 });
}

#[test]
fn time_till_next_job_at_takes_the_earliest_schedule() {
    let mut s = JobScheduler::<u32>::new();
    s.add(cron_job(1, "0 0 13 * * * *"));
    assert_eq!(s.time_till_next_job_at(at(BEFORE_NOON, 0)), Delay { secs: 3_601, nanos: 0 });
    s.add(job(2, JobType::OneShot));
    s.add(cron_job(3, "0 0 12 * * * *"));
    assert_eq!(s.time_till_next_job_at(at(BEFORE_NOON, 0)), Delay { secs: 1, nanos: 0 });
    let mut t = JobScheduler::<u32>::new();
    t.add(cron_job(3, "0 0 12 * * * *"));
    t.add(cron_job(1, "0 0 13 * * * *"));
    assert_eq!(t.time_till_next_job_at(at(BEFORE_NOON, 0)), Delay { secs: 1, nanos: 0 });
}

#[test]
fn time_till_next_job_at_is_zero_without_a_run_to_come() {
    let mut s = JobScheduler::<u32>::new();
    s.add(cron_job(1, "0 0 0 * * * 2025"));
    s.add(job(2, JobType::Repeated));
    assert_eq!(s.time_till_next_job_at(at(BEFORE_NOON, 0)), Delay { secs: 0, nanos: 0 });
}

#[test]
fn time_till_next_job_at_the_end_of_chrono_range_is_zero() {
    let mut s = JobScheduler::<u32>::new();
    s.add(cron_job(1, "* * * * * * *"));
    assert_eq!(s.time_till_next_job_at(at(8_210_266_876_799, 0)), Delay { secs: 0, nanos: 0 });
}

#[test]
fn time_till_next_job_at_ignores_an_expression_that_does_not_parse() {
    let mut s = JobScheduler::<u32>::new();
    s.add(cron_job(1, "not a cron expression"));
    assert_eq!(s.time_till_next_job_at(at(BEFORE_NOON, 0)), Delay { secs: 0, nanos: 0 });
    assert_eq!(s.time_till_next_job(), Ok(Delay { secs: 0, nanos: 0 }));
}

#[test]
fn shortest_wait_picks_the_earliest_future_instant() {
    let now = Instant { secs: 100, nanos: 250 };
    let nexts = vec![
        Some(Instant { secs: 105, nanos: 0 }),
        None,
        Some(Instant { secs: 102, nanos: 500 }),
    ];
    assert_eq!(shortest_wait(now, &nexts), Delay { secs: 2, nanos: 250 });
}

#[test]
fn shortest_wait_is_zero_when_an_instant_has_passed() {
    let now = Instant { secs: 100, nanos: 0 };
    let nexts = vec![Some(Instant { secs: 200, nanos: 0 }), Some(Instant { secs: 99, nanos: 0 })];
    assert_eq!(shortest_wait(now, &nexts), Delay { secs: 0, nanos: 0 });
}

#[test]
fn shortest_wait_is_zero_without_instants() {
    let now = Instant { secs: 100, nanos: 0 };
    assert_eq!(shortest_wait(now, &vec![None, None]), Delay { secs: 0, nanos: 0 });
    assert_eq!(shortest_wait(now, &vec![]), Delay { secs: 0, nanos: 0 });
}

#[test]
fn shortest_wait_is_zero_at_the_instant_itself() {
    let now = Instant { secs: 100, nanos: 7 };
    assert_eq!(shortest_wait(now, &vec![Some(now)]), Delay { secs: 0, nanos: 0 });
}

#[test]
fn shortest_wait_across_the_epoch_and_a_leap_second() {
    let now = Instant { secs: -2, nanos: 999_999_999 };
    let nexts = vec![Some(Instant { secs: 0, nanos: 1_500_000_000 })];
    // -1.000000001 s to 1.5 s.
    assert_eq!(shortest_wait(now, &nexts), Delay { secs: 2, nanos: 500_000_001 });
}

#[test]
fn delay_from_nanos_splits_seconds() {
    assert_eq!(Delay::from_nanos(3_000_000_007), Delay { secs: 3, nanos: 7 });
    assert_eq!(Delay::from_nanos(0), Delay { secs: 0, nanos: 0 });
}
