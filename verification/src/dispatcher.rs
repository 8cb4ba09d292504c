//! The bookkeeping of the job dispatcher: its queue of pending jobs, the
//! slot through which it is told to stop, the limit on jobs that run at
//! once, and what its loop does on each turn. Running the jobs themselves
//! is the caller's part.

use vstd::prelude::*;
use std::collections::VecDeque;
use crate::commands::JobInfo;

verus! {

/// What the dispatcher loop can be told.
#[derive(Clone, Copy, Debug, PartialEq, Eq, Structural)]
pub enum ThreadCommands {
    /// Kill the running jobs and stop at once.
    DIE,
    /// Stop once no job is running.
    FINISH,
}

/// What a finished job hands back.
#[derive(Debug)]
pub struct JobResult {
    pub info: JobInfo,
    pub results: Vec<String>,
}

/// What the dispatcher loop does on this turn, given its command.
#[derive(Clone, Copy, Debug, PartialEq, Eq, Structural)]
pub enum LoopControl {
    /// Leave the loop.
    Exit,
    /// Kill every running job, then leave the loop.
    KillAndExit,
    /// Collect finished jobs and start new ones.
    Proceed,
}

/// Adds a job at the front of the queue; jobs leave from the back, so the
/// queue is first in, first out.
pub fn queue_push<T>(queue: &mut VecDeque<T>, item: T)
    ensures
        final(queue)@ == seq![item] + old(queue)@,
{
    queue.push_front(item);
}

/// Takes the oldest job off the queue, if there is one.
pub fn queue_pop<T>(queue: &mut VecDeque<T>) -> (res: Option<T>)
    ensures
        old(queue)@.len() == 0 ==> res.is_none() && final(queue)@ == old(queue)@,
        old(queue)@.len() > 0 ==> res == Some(old(queue)@.last()) && final(queue)@
            == old(queue)@.drop_last(),
{
    let res = queue.pop_back();
    proof {
        if old(queue)@.len() > 0 {
            assert(queue@ =~= old(queue)@.drop_last());
        }
    }
    res
}

/// The number of jobs in the queue.
pub fn queue_size<T>(queue: &VecDeque<T>) -> (res: usize)
    ensures
        res == queue@.len(),
{
    queue.len()
}

/// Takes every entry off `queue`, oldest first.
pub fn queue_drain<T>(queue: &mut VecDeque<T>) -> (res: Vec<T>)
    ensures
        final(queue)@.len() == 0,
        res@ == old(queue)@.reverse(),
{
    let mut res: Vec<T> = Vec::new();
    while queue.len() > 0
        invariant
            res@ + queue@.reverse() == old(queue)@.reverse(),
        decreases queue@.len(),
    {
        let ghost before = queue@;
        let item = queue.pop_back().unwrap();
        res.push(item);
        assert(before.reverse() =~= seq![item] + queue@.reverse());
    }
    assert(queue@.reverse() =~= Seq::<T>::empty());
    assert(res@ =~= res@ + Seq::<T>::empty());
    res
}

/// Drops the pending jobs and tells the loop to stop once the running jobs
/// are over.
pub fn request_finish<T>(queue: &mut VecDeque<T>, command: &mut Option<ThreadCommands>)
    ensures
        final(queue)@.len() == 0,
        *final(command) == Some(ThreadCommands::FINISH),
{
    queue.clear();
    set_command(ThreadCommands::FINISH, command);
}

/// The limit on jobs that run at once.
pub fn get_max_jobs(max_jobs: &usize) -> (res: usize)
    ensures
        res == *max_jobs,
{
    *max_jobs
}

/// Sets the limit on jobs that run at once.
pub fn set_max_jobs(new_maxjobs: usize, max_jobs: &mut usize)
    ensures
        *final(max_jobs) == new_maxjobs,
{
    *max_jobs = new_maxjobs;
}

/// Reads the command and clears it, so that it is acted on once.
pub fn take_command(command: &mut Option<ThreadCommands>) -> (res: Option<ThreadCommands>)
    ensures
        res == *old(command),
        final(command).is_none(),
{
    command.take()
}

/// Reads the command and leaves it in place.
pub fn get_command(command: &Option<ThreadCommands>) -> (res: Option<ThreadCommands>)
    ensures
        res == *command,
{
    *command
}

/// Gives the loop a command, in place of any earlier one.
pub fn set_command(to_set: ThreadCommands, command: &mut Option<ThreadCommands>)
    ensures
        *final(command) == Some(to_set),
{
    *command = Some(to_set);
}

/// Has the loop been told to finish?
pub fn thread_finish(command: &Option<ThreadCommands>) -> (res: bool)
    ensures
        res == (*command == Some(ThreadCommands::FINISH)),
{
    match get_command(command) {
        Some(ThreadCommands::FINISH) => true,
        _ => false,
    }
}

/// How many more jobs may start: the limit, taken as a signed number, less
/// the running ones; negative when the limit was lowered below them.
pub fn open_jobs(max_jobs: usize, running_jobs: usize) -> (res: isize)
    requires
        running_jobs <= isize::MAX,
        (max_jobs as isize) - running_jobs >= isize::MIN,
    ensures
        res == (max_jobs as isize) - running_jobs,
{
    max_jobs as isize - running_jobs as isize
}

/// What the loop does with its command when `running_jobs` jobs run: it
/// leaves on `FINISH` only once none runs, kills them all on `DIE`, and
/// otherwise carries on.
pub fn react_to_command(command: Option<ThreadCommands>, running_jobs: usize) -> (res: LoopControl)
    ensures
        res == (match command {
            Some(ThreadCommands::FINISH) => if running_jobs == 0 {
                LoopControl::Exit
            } else {
                LoopControl::Proceed
            },
            Some(ThreadCommands::DIE) => LoopControl::KillAndExit,
            None => LoopControl::Proceed,
        }),
{
    match command {
        Some(ThreadCommands::FINISH) => {
            if running_jobs == 0 {
                LoopControl::Exit
            } else {
                LoopControl::Proceed
            }
        },
        Some(ThreadCommands::DIE) => LoopControl::KillAndExit,
        None => LoopControl::Proceed,
    }
}

/// Jobs leave the queue in the order they came in: pushing onto a queue
/// and popping gives back its oldest job, or the pushed one if it was
/// empty, and the queue grows by one on each push.
pub proof fn lemma_queue_fifo<T>(q: Seq<T>, item: T)
    ensures
        (seq![item] + q).len() == q.len() + 1,
        q.len() == 0 ==> (seq![item] + q).last() == item,
        q.len() > 0 ==> (seq![item] + q).last() == q.last(),
        q.len() > 0 ==> (seq![item] + q).drop_last() == seq![item] + q.drop_last(),
{
    if q.len() > 0 {
        assert((seq![item] + q).drop_last() =~= seq![item] + q.drop_last());
    }
}

} // verus!
