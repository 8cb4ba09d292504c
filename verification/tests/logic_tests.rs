use chunk_encoder::logic::{Machine, NextCommand, ResultStep};
use chunk_encoder::project::{Chunk, EncodeState, Project, Record};

fn record(scene: usize, start: usize, end: usize) -> Record {
    Record {
        scene_number: scene,
        start_frame: start,
        start_timecode: String::new(),
        end_frame: end,
        end_timecode: String::new(),
        length_frames: end - start,
        length_timecode: String::new(),
    }
}

fn project(n: usize) -> Project {
    let mut p = Project::new(String::from("v.mkv"));
    for i in 0..n {
        p.add_chunk(record(i + 1, i * 10, i * 10 + 10));
    }
    p
}

fn with_state(c: &Chunk, s: EncodeState) -> Chunk {
    let mut c = c.clone();
    c.state = s;
    c
}

#[test]
fn progress_counts() {
    let mut p = project(3);
    p.chunks[1].state = EncodeState::COMPLETE;
    p.chunks[2].state = EncodeState::PASS_2;
    let m = Machine::new(p);
    assert_eq!(m.chunks_complete_incomplete(), (2, 1));
}

#[test]
fn next_command_follows_state() {
    let p = project(1);
    let m = Machine::new(p);
    let c = m.project().chunks[0].clone();
    assert!(matches!(m.make_next_command(&c), Some(NextCommand::Split(_))));
    assert!(matches!(m.make_next_command(&with_state(&c, EncodeState::SPLIT)), Some(NextCommand::Pass1(_))));
    assert!(matches!(m.make_next_command(&with_state(&c, EncodeState::PASS_1)), Some(NextCommand::Pass2(_))));
    assert!(m.make_next_command(&with_state(&c, EncodeState::PASS_2)).is_none());
    assert!(m.make_next_command(&with_state(&c, EncodeState::COMPLETE)).is_none());
}

#[test]
fn workable_chunks_skip_done_ones() {
    let mut p = project(4);
    p.chunks[1].state = EncodeState::COMPLETE;
    let m = Machine::new(p);
    let found = m.find_next_x_workable_chunks(2).unwrap();
    let scenes: Vec<usize> = found.iter().map(|c| c.scene_number).collect();
    assert_eq!(scenes, vec![1, 3]);
    let all = m.find_next_x_workable_chunks(10).unwrap();
    assert_eq!(all.len(), 3);
}

#[test]
fn no_workable_chunks_gives_none() {
    let mut p = project(2);
    p.chunks[0].state = EncodeState::COMPLETE;
    p.chunks[1].state = EncodeState::PASS_2;
    let m = Machine::new(p);
    assert!(m.find_next_x_workable_chunks(3).is_none());
}

#[test]
fn asking_for_no_chunk() {
    let m = Machine::new(project(3));
    assert_eq!(m.find_next_x_workable_chunks(0).unwrap().len(), 3);
    let mut p = project(3);
    p.chunks[0].state = EncodeState::COMPLETE;
    let m = Machine::new(p);
    assert!(m.find_next_x_workable_chunks(0).is_none());
}

#[test]
fn start_work_submits_a_job_per_chunk() {
    let mut m = Machine::new(project(3));
    let cmds = m.start_work(2);
    assert_eq!(cmds.len(), 2);
    assert!(cmds.iter().all(|c| matches!(c, NextCommand::Split(_))));
    let scenes: Vec<usize> = m.work_list().iter().map(|c| c.scene_number).collect();
    assert_eq!(scenes, vec![1, 2]);
    assert!(m.has_work());
    assert!(m.find_chunk_in_work_list(&m.project().chunks[0].clone()));
    assert!(!m.find_chunk_in_work_list(&m.project().chunks[2].clone()));
    assert_eq!(m.find_next_x_workable_chunks(5).unwrap()[0].scene_number, 3);
}

#[test]
fn result_with_more_work_continues_chunk() {
    let mut m = Machine::new(project(2));
    let _ = m.start_work(1);
    let mut c = m.project().chunks[0].clone();
    c.state = EncodeState::SPLIT;
    c.raw_file = String::from("split-0-9.y4m");
    match m.on_result(c) {
        ResultStep::SameChunk(NextCommand::Pass1(job)) => assert_eq!(job.chunk.raw_file, "split-0-9.y4m"),
        _ => panic!("expected a first pass"),
    }
    assert_eq!(m.project().chunks[0].state, EncodeState::SPLIT);
    assert_eq!(m.work_list().len(), 1);
}

#[test]
fn finished_chunk_makes_room_for_next() {
    let mut m = Machine::new(project(2));
    let _ = m.start_work(1);
    let c = with_state(&m.project().chunks[0].clone(), EncodeState::PASS_2);
    match m.on_result(c) {
        ResultStep::NextChunk(next, NextCommand::Split(_)) => assert_eq!(next.scene_number, 2),
        _ => panic!("expected the next chunk"),
    }
    let scenes: Vec<usize> = m.work_list().iter().map(|c| c.scene_number).collect();
    assert_eq!(scenes, vec![2]);
    let c = with_state(&m.project().chunks[1].clone(), EncodeState::PASS_2);
    assert!(matches!(m.on_result(c), ResultStep::NoMoreChunks));
    assert!(!m.has_work());
    assert_eq!(m.chunks_complete_incomplete(), (2, 0));
}

#[test]
fn marking_complete_finishes_every_chunk() {
    let mut m = Machine::new(project(3));
    m.mark_chunks_complete();
    assert!(m.project().chunks.iter().all(|c| c.state == EncodeState::COMPLETE));
    assert_eq!(m.chunks_complete_incomplete(), (3, 0));
    assert_eq!(m.project().chunks[2].end_frame, 29);
}
