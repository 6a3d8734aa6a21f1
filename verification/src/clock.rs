use vstd::prelude::*;

verus! {

/// The largest number of seconds, either side of the Unix epoch, that chrono
/// can report for an instant.
pub const TIMESTAMP_BOUND: i64 = 250_000_000_000_000;

/// The number of nanoseconds in a second.
pub const NANOS_PER_SEC: u32 = 1_000_000_000;

/// An instant as chrono reports it: whole seconds since the Unix epoch, and
/// nanoseconds since the last second boundary (more than a second's worth
/// only inside a leap second).
#[derive(Clone, Copy, Debug, PartialEq, Eq, Structural)]
pub struct Instant {
    pub secs: i64,
    pub nanos: u32,
}

impl Instant {
    /// Within the range of instants that chrono can represent.
    pub open spec fn wf(self) -> bool {
        &&& -TIMESTAMP_BOUND <= self.secs <= TIMESTAMP_BOUND
        &&& self.nanos < 2 * NANOS_PER_SEC
    }

    /// Nanoseconds since the Unix epoch.
    pub open spec fn total_nanos(self) -> int {
        self.secs * NANOS_PER_SEC + self.nanos
    }

    fn to_nanos(&self) -> (n: i128)
        requires
            self.wf(),
        ensures
            n == self.total_nanos(),
    {
        self.secs as i128 * 1_000_000_000i128 + self.nanos as i128
    }
}

/// A length of time that is not negative.
#[derive(Clone, Copy, Debug, PartialEq, Eq, Structural)]
pub struct Delay {
    pub secs: u64,
    pub nanos: u32,
}

impl Delay {
    /// The nanoseconds are less than a second.
    pub open spec fn wf(self) -> bool {
        self.nanos < NANOS_PER_SEC
    }

    /// The length in nanoseconds.
    pub open spec fn total_nanos(self) -> int {
        self.secs * NANOS_PER_SEC + self.nanos
    }

    /// The delay of `n` nanoseconds.
    pub fn from_nanos(n: u128) -> (d: Delay)
        requires
            n / (NANOS_PER_SEC as u128) <= u64::MAX,
        ensures
            d.wf(),
            d.total_nanos() == n,
    {
        let secs = (n / 1_000_000_000u128) as u64;
        let nanos = (n % 1_000_000_000u128) as u32;
        Delay { secs, nanos }
    }
}

/// The system clock, as whole seconds and nanoseconds since the Unix epoch.
///
/// Calls `std::time::SystemTime::now` and `SystemTime::duration_since` with
/// `UNIX_EPOCH`, and reads the duration with `Duration::as_secs` and
/// `Duration::subsec_nanos`; `None` when the clock reads before the epoch
/// (the error of `duration_since`). What it returns depends on the clock, so
/// nothing is claimed of it but what std documents of every duration: the
/// nanoseconds are less than a second.
#[verifier::external_body]
fn system_clock() -> (r: Option<(u64, u32)>)
    ensures
        r matches Some(t) ==> t.1 < NANOS_PER_SEC,
{
    match std::time::SystemTime::now().duration_since(std::time::UNIX_EPOCH) {
        Ok(since) => Some((since.as_secs(), since.subsec_nanos())),
        Err(_) => None,
    }
}

/// Why the clock gave no instant that chrono can represent.
#[derive(Clone, Copy, Debug, PartialEq, Eq, Structural)]
pub enum ClockError {
    /// The clock reads before the Unix epoch.
    BeforeEpoch,
    /// The clock reads past the last second of chrono's range.
    OutOfRange,
}

/// The instant `secs` seconds and `nanos` nanoseconds after the Unix epoch,
/// if chrono can represent it.
pub fn instant_since_epoch(secs: u64, nanos: u32) -> (r: Result<Instant, ClockError>)
    requires
        nanos < NANOS_PER_SEC,
    ensures
        r == if secs <= LAST_SECOND {
            Ok::<Instant, ClockError>(Instant { secs: secs as i64, nanos })
        } else {
            Err(ClockError::OutOfRange)
        },
{
    if secs <= LAST_SECOND as u64 {
        Ok(Instant { secs: secs as i64, nanos })
    } else {
        Err(ClockError::OutOfRange)
    }
}

/// The current time, or why there is none that chrono can represent.
pub fn read_clock() -> (r: Result<Instant, ClockError>)
    ensures
        r matches Ok(t) ==> t.wf() && 0 <= t.secs <= LAST_SECOND && t.nanos < NANOS_PER_SEC,
{
    match system_clock() {
        Some((secs, nanos)) => instant_since_epoch(secs, nanos),
        None => Err(ClockError::BeforeEpoch),
    }
}

/// The last second of chrono's range (December 31, 262142, 23:59:59), in
/// seconds since the Unix epoch. Cron's search starts by adding a second to
/// the instant it is given, which overflows within that second; cron only
/// knows the years up to 2100, so it has no instant to give there anyway.
pub const LAST_SECOND: i64 = 8_210_266_876_799;

/// What cron gives as the first instant of the cron expression `expr` after
/// the instant of `secs` seconds and `nanos` nanoseconds since the Unix epoch:
/// `None` when the expression does not parse, the instant is not one chrono
/// can represent, or the schedule has no instant after it.
pub uninterp spec fn cron_next_after(expr: Seq<char>, secs: int, nanos: int) -> Option<Instant>;

/// The first instant of a cron expression after `now`.
///
/// Parses `expr` with `cron::Schedule`'s `FromStr`, builds the instant with
/// `chrono::DateTime::from_timestamp`, and takes the first instant that
/// `cron::Schedule::after` yields, read with `DateTime::timestamp` and
/// `DateTime::timestamp_subsec_nanos`. The result is named as a function of the
/// expression and the instant alone. Beside the name: cron's source builds
/// each instant from whole seconds of a year up to 2100, so it is within
/// chrono's range and its nanoseconds are zero. `now` stays before the last
/// second of chrono's range, where cron's first step would overflow.
#[verifier::external_body]
pub(crate) fn next_after(expr: &String, now: Instant) -> (r: Option<Instant>)
    requires
        now.secs < LAST_SECOND,
    ensures
        r == cron_next_after(expr@, now.secs as int, now.nanos as int),
        r matches Some(t) ==> t.wf() && t.nanos == 0,
{
    let schedule = match expr.parse::<cron::Schedule>() {
        Ok(schedule) => schedule,
        Err(_) => return None,
    };
    let start = match chrono::DateTime::<chrono::Utc>::from_timestamp(now.secs, now.nanos) {
        Some(start) => start,
        None => return None,
    };
    match schedule.after(&start).next() {
        Some(t) => Some(Instant { secs: t.timestamp(), nanos: t.timestamp_subsec_nanos() }),
        None => None,
    }
}

/// The least of `next - now` over the instants that are present, if any.
pub open spec fn earliest_wait(now: Instant, nexts: Seq<Option<Instant>>) -> Option<int>
    decreases nexts.len(),
{
    if nexts.len() == 0 {
        None
    } else {
        let rest = earliest_wait(now, nexts.drop_last());
        match nexts.last() {
            None => rest,
            Some(t) => {
                let d = t.total_nanos() - now.total_nanos();
                match rest {
                    None => Some(d),
                    Some(r) => Some(
                        if d < r {
                            d
                        } else {
                            r
                        },
                    ),
                }
            },
        }
    }
}

/// How long to wait, in nanoseconds, for the earliest of `nexts`: nothing if
/// none is present or the earliest is already past.
pub open spec fn wait_nanos(now: Instant, nexts: Seq<Option<Instant>>) -> int {
    match earliest_wait(now, nexts) {
        Some(d) => if d > 0 {
            d
        } else {
            0
        },
        None => 0,
    }
}

/// Every instant present is within chrono's range.
pub open spec fn all_wf(nexts: Seq<Option<Instant>>) -> bool {
    forall|i: int| 0 <= i < nexts.len() && (#[trigger] nexts[i]) is Some ==> nexts[i]->0.wf()
}

/// How long to wait at `now` for the earliest of the instants `nexts`.
pub fn shortest_wait(now: Instant, nexts: &Vec<Option<Instant>>) -> (d: Delay)
    requires
        now.wf(),
        all_wf(nexts@),
    ensures
        d.wf(),
        d.total_nanos() == wait_nanos(now, nexts@),
{
    let now_nanos = now.to_nanos();
    let mut found = false;
    let mut best: i128 = 0;
    let mut i: usize = 0;
    proof {
        assert(nexts@.take(0) =~= Seq::<Option<Instant>>::empty());
    }
    while i < nexts.len()
        invariant
            i <= nexts@.len(),
            now.wf(),
            all_wf(nexts@),
            now_nanos == now.total_nanos(),
            found == earliest_wait(now, nexts@.take(i as int)) is Some,
            found ==> best == earliest_wait(now, nexts@.take(i as int))->0,
            found ==> -600_000_000_000_000_000_000_000i128 <= best <= 600_000_000_000_000_000_000_000i128,
        decreases nexts@.len() - i,
    {
        proof {
            assert(nexts@.take(i + 1).drop_last() =~= nexts@.take(i as int));
            assert(nexts@.take(i + 1).last() == nexts@[i as int]);
        }
        match &nexts[i] {
            Some(t) => {
                let d = t.to_nanos() - now_nanos;
                if !found || d < best {
                    best = d;
                }
                found = true;
            },
            None => {},
        }
        i = i + 1;
    }
    proof {
        assert(nexts@.take(nexts@.len() as int) =~= nexts@);
    }
    if found && best > 0 {
        let n = best as u128;
        assert(n / (NANOS_PER_SEC as u128) <= u64::MAX) by (nonlinear_arith)
            requires
                n <= 600_000_000_000_000_000_000_000u128,
        ;
        Delay::from_nanos(n)
    } else {
        Delay { secs: 0, nanos: 0 }
    }
}

} // verus!
