//! The rules by which the queue of running build tasks is watched.

use vstd::prelude::*;

verus! {

/// A build task as it stands in the queues: its identity, where the source
/// is read and the result written, and when it was submitted, in seconds
/// since the start of 1970.
#[derive(Debug, Clone, PartialEq, Eq)]
pub struct SubmitBuildTask {
    pub id: String,
    pub src: String,
    pub dst: String,
    pub timestamp: u64,
}

/// A running task is given up after this many seconds.
pub const TASK_TIMEOUT: u64 = 300;

/// What the watcher knows of the oldest running task.
#[derive(Debug, Clone, Copy, PartialEq, Eq)]
pub enum WorkingTask {
    /// The entry of the queue holds no task.
    Unreadable,
    /// The entry holds a task that no job refers to.
    Orphan,
    /// The job of the task has a status.
    Finished,
    /// The job of the task has no status yet; the task was submitted at
    /// this time.
    Running(u64),
}

/// What the watcher does with the oldest running task.
#[derive(Debug, Clone, Copy, PartialEq, Eq)]
pub enum MonitorStep {
    /// Take the entry out of the queue and look at the next one.
    Remove,
    /// Submit the job again under a new task, take the entry out of the
    /// queue and look at the next one.
    Restart,
    /// Leave the queue as it is until the next round.
    Wait,
}

/// The task was submitted more than `TASK_TIMEOUT` seconds before `now`.
pub open spec fn timed_out(now: u64, submitted: u64) -> bool {
    now - submitted > TASK_TIMEOUT
}

/// Decides what to do with the oldest running task at the time `now`: an
/// entry that is unreadable, orphaned or finished is removed, a task that
/// has run for too long is restarted, and any other is waited for.
pub fn monitor_step(task: WorkingTask, now: u64) -> (r: MonitorStep)
    ensures
        r == match task {
            WorkingTask::Running(submitted) => if timed_out(now, submitted) {
                MonitorStep::Restart
            } else {
                MonitorStep::Wait
            },
            _ => MonitorStep::Remove,
        },
{
    match task {
        WorkingTask::Running(submitted) => {
            if now > submitted && now - submitted > TASK_TIMEOUT {
                MonitorStep::Restart
            } else {
                MonitorStep::Wait
            }
        },
        _ => MonitorStep::Remove,
    }
}

} // verus!
