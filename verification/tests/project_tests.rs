use chunk_encoder::project::{Chunk, EncodeState, Project, Record};

fn record(scene: usize, start: usize, end: usize) -> Record {
    Record {
        scene_number: scene,
        start_frame: start,
        start_timecode: String::from("00:00:00.000"),
        end_frame: end,
        end_timecode: String::from("00:00:01.000"),
        length_frames: end - start,
        length_timecode: String::from("00:00:01.000"),
    }
}

#[test]
fn new_project_has_default_layout() {
    let p = Project::new(String::from("ep1-vid.mkv"));
    assert_eq!(p.file_name, "ep1-vid.mkv");
    assert_eq!(p.paths.base, "");
    assert_eq!(p.paths.tools, "tools");
    assert_eq!(p.paths.tmp, "tmp");
    assert_eq!(p.paths.raw_chunks, "raws");
    assert_eq!(p.paths.encoded_chunks, "enc");
    assert!(p.container_info.is_none());
    assert!(p.videostream_info.is_none());
    assert!(p.chunks.is_empty());
}

#[test]
fn add_chunk_ends_before_next_scene() {
    let mut p = Project::new(String::from("v.mkv"));
    p.add_chunk(record(1, 0, 10));
    p.add_chunk(record(2, 10, 25));
    assert_eq!(p.chunks.len(), 2);
    let c = &p.chunks[1];
    assert_eq!(c.scene_number, 2);
    assert_eq!(c.start_frame, 10);
    assert_eq!(c.end_frame, 24);
    assert_eq!(c.length_frames, 14);
    assert_eq!(c.state, EncodeState::NOT_STARTED);
    assert_eq!(c.raw_file, "");
    assert_eq!(c.firstpass_file, "");
    assert_eq!(c.encoded_file, "");
    assert_eq!(p.chunks[0].end_frame, 9);
}

#[test]
fn add_target_and_base_path() {
    let mut p = Project::new(String::from("a.mkv"));
    p.add_target("b.mkv");
    p.set_base_path(String::from("C:\\work"));
    assert_eq!(p.file_name, "b.mkv");
    assert_eq!(p.paths.base, "C:\\work");
    assert_eq!(p.paths.tools, "tools");
}

#[test]
fn get_scene_finds_first_chunk_of_scene() {
    let mut p = Project::new(String::from("v.mkv"));
    p.add_chunk(record(1, 0, 10));
    p.add_chunk(record(2, 10, 20));
    let c = p.get_scene(2).unwrap();
    assert_eq!(c.start_frame, 10);
    assert!(p.get_scene(3).is_none());
    assert!(p.has_scene(1));
    assert!(!p.has_scene(3));
}

#[test]
fn update_then_get_gives_back_new_chunk() {
    let mut p = Project::new(String::from("v.mkv"));
    p.add_chunk(record(1, 0, 10));
    p.add_chunk(record(2, 10, 20));
    let mut c: Chunk = p.get_scene(2).unwrap();
    c.state = EncodeState::SPLIT;
    c.raw_file = String::from("split-10-19.y4m");
    p.update_chunk(c);
    let back = p.get_scene(2).unwrap();
    assert_eq!(back.state, EncodeState::SPLIT);
    assert_eq!(back.raw_file, "split-10-19.y4m");
    let other = p.get_scene(1).unwrap();
    assert_eq!(other.state, EncodeState::NOT_STARTED);
    assert_eq!(p.chunks.len(), 2);
}
