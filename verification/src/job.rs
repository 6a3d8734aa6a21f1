use vstd::prelude::*;

verus! {

/// The identifier type of a job.
#[verifier::external_type_specification]
#[verifier::external_body]
pub struct ExUuid(uuid::Uuid);

/// Compares two job identifiers.
///
/// Calls `<uuid::Uuid as PartialEq>::eq`. `Uuid` is a plain wrapper around
/// sixteen bytes whose `PartialEq` is derived, so two identifiers compare equal
/// exactly when they are the same value; that is what the contract claims.
#[verifier::external_body]
pub(crate) fn uuid_eq(a: &uuid::Uuid, b: &uuid::Uuid) -> (r: bool)
    ensures
        r == (*a == *b),
{
    a == b
}

/// How a job is triggered.
#[derive(Clone, Copy, Debug, PartialEq, Eq, Structural)]
pub enum JobType {
    /// Fires on the instants of a cron expression.
    Cron,
    /// Fires over and over at a fixed interval.
    Repeated,
    /// Fires once and is then dropped from the scheduler.
    OneShot,
}

/// A job: what the scheduler knows of it, and the task that carries it out,
/// which the scheduler only holds.
pub struct Job<T> {
    /// The job's identifier.
    pub id: uuid::Uuid,
    /// How the job is triggered.
    pub job_type: JobType,
    /// Set once the job has been taken out of the scheduler.
    pub stopped: bool,
    /// The cron expression of a cron job; `None` for the others.
    pub schedule: Option<String>,
    /// What runs when the job fires.
    pub task: T,
}

impl<T> Job<T> {
    /// A job that has not been stopped.
    pub fn new(id: uuid::Uuid, job_type: JobType, schedule: Option<String>, task: T) -> (j: Job<T>)
        ensures
            j.id == id,
            j.job_type == job_type,
            !j.stopped,
            j.schedule == schedule,
            j.task == task,
    {
        Job { id, job_type, stopped: false, schedule, task }
    }

    /// Whether stopping this job also aborts its running task: true for
    /// one-shot and repeated jobs, whose runs are spawned tasks.
    pub open spec fn spec_needs_abort(&self) -> bool {
        self.job_type == JobType::OneShot || self.job_type == JobType::Repeated
    }

    pub fn needs_abort(&self) -> (r: bool)
        ensures
            r == self.spec_needs_abort(),
    {
        match self.job_type {
            JobType::OneShot => true,
            JobType::Repeated => true,
            JobType::Cron => false,
        }
    }

    /// The job's identifier.
    pub fn job_id(&self) -> (r: uuid::Uuid)
        ensures
            r == self.id,
    {
        self.id
    }

    /// Whether the job carries the given identifier.
    pub fn has_id(&self, id: &uuid::Uuid) -> (r: bool)
        ensures
            r == (self.id == *id),
    {
        uuid_eq(&self.id, id)
    }
}

} // verus!
