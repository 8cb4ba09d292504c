use std::collections::VecDeque;
use chunk_encoder::commands::JobInfo;
use chunk_encoder::dispatcher::{
    get_command, get_max_jobs, open_jobs, queue_drain, queue_pop, queue_push, queue_size,
    react_to_command, request_finish, set_command, set_max_jobs, take_command, thread_finish,
    JobResult, LoopControl, ThreadCommands,
};

#[test]
fn queue_is_first_in_first_out() {
    let mut q: VecDeque<u32> = VecDeque::new();
    queue_push(&mut q, 1);
    queue_push(&mut q, 2);
    queue_push(&mut q, 3);
    assert_eq!(queue_size(&q), 3);
    assert_eq!(queue_pop(&mut q), Some(1));
    assert_eq!(queue_pop(&mut q), Some(2));
    queue_push(&mut q, 4);
    assert_eq!(queue_pop(&mut q), Some(3));
    assert_eq!(queue_pop(&mut q), Some(4));
    assert_eq!(queue_pop(&mut q), None);
    assert_eq!(queue_size(&q), 0);
}

#[test]
fn drain_gives_oldest_first() {
    let mut q: VecDeque<u32> = VecDeque::new();
    queue_push(&mut q, 1);
    queue_push(&mut q, 2);
    assert_eq!(queue_drain(&mut q), vec![1, 2]);
    assert!(q.is_empty());
    assert!(queue_drain(&mut q).is_empty());
}

#[test]
fn command_slot() {
    let mut cmd: Option<ThreadCommands> = None;
    assert!(!thread_finish(&cmd));
    set_command(ThreadCommands::DIE, &mut cmd);
    assert_eq!(get_command(&cmd), Some(ThreadCommands::DIE));
    assert!(!thread_finish(&cmd));
    set_command(ThreadCommands::FINISH, &mut cmd);
    assert!(thread_finish(&cmd));
    assert_eq!(take_command(&mut cmd), Some(ThreadCommands::FINISH));
    assert_eq!(get_command(&cmd), None);
}

#[test]
fn finish_request_empties_queue() {
    let mut q: VecDeque<u32> = VecDeque::new();
    queue_push(&mut q, 1);
    let mut cmd = None;
    request_finish(&mut q, &mut cmd);
    assert!(q.is_empty());
    assert_eq!(cmd, Some(ThreadCommands::FINISH));
}

#[test]
fn max_jobs_and_open_slots() {
    let mut max = 1usize;
    set_max_jobs(3, &mut max);
    assert_eq!(get_max_jobs(&max), 3);
    assert_eq!(open_jobs(3, 1), 2);
    assert_eq!(open_jobs(1, 3), -2);
    assert_eq!(open_jobs(0, 0), 0);
}

#[test]
fn loop_reacts_to_commands() {
    assert_eq!(react_to_command(None, 2), LoopControl::Proceed);
    assert_eq!(react_to_command(Some(ThreadCommands::FINISH), 0), LoopControl::Exit);
    assert_eq!(react_to_command(Some(ThreadCommands::FINISH), 1), LoopControl::Proceed);
    assert_eq!(react_to_command(Some(ThreadCommands::DIE), 5), LoopControl::KillAndExit);
}

#[test]
fn job_result_holds_info() {
    let r = JobResult {
        info: JobInfo { chunk_num: 1, file_name: String::from("f"), start_frame: 0, end_frame: 9 },
        results: vec![String::from("out.ivf")],
    };
    assert_eq!(r.info.chunk_num, 1);
    assert_eq!(r.results.len(), 1);
}
