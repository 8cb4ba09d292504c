use chunk_encoder::commands::encode::{EncodePass1, EncodePass2};
use chunk_encoder::commands::mediainfo::MediaInfo;
use chunk_encoder::commands::{make_mediainfo, make_merge, make_pass1, make_pass2, make_split, JobInfo};
use chunk_encoder::commands::split::Split;
use chunk_encoder::project::{Chunk, EncodeState, Project, Record};

fn record(scene: usize, start: usize, end: usize) -> Record {
    Record {
        scene_number: scene,
        start_frame: start,
        start_timecode: String::new(),
        end_frame: end,
        end_timecode: String::new(),
        length_frames: end - start,
        length_timecode: String::new(),
    }
}

fn project() -> Project {
    let mut p = Project::new(String::from("ep1-vid.mkv"));
    p.add_chunk(record(1, 0, 10));
    p.add_chunk(record(2, 10, 20));
    p
}

fn chunk_with(raw: &str, encoded: &str) -> Chunk {
    let mut c = project().chunks[1].clone();
    c.raw_file = String::from(raw);
    c.encoded_file = String::from(encoded);
    c
}

#[test]
fn split_names_raw_file_and_builds_script() {
    let p = project();
    let mut job: Split = make_split(&p, p.chunks[1].clone());
    assert!(job.cleanup_files.is_empty());
    let batch = job.prepare();
    assert_eq!(job.chunk.raw_file, "split-10-19.y4m");
    assert_eq!(batch.path, "tmp\\split-10-19.bat");
    assert_eq!(
        batch.contents,
        "@echo off\ntools\\ffmpeg.exe -y -i ep1-vid.mkv -vf select=\"between(n\\,10\\,19),setpts=PTS-STARTPTS\" -pix_fmt yuv420p raws\\split-10-19.y4m\nexit"
    );
    assert_eq!(job.cleanup_files, vec![String::from("tmp\\split-10-19.bat")]);
    let result = job.getresults();
    assert_eq!(result.raw_file, "split-10-19.y4m");
    assert_eq!(result.state, EncodeState::NOT_STARTED);
    assert_eq!(result.end_frame, 19);
}

#[test]
fn split_uses_the_temp_directory_of_the_project() {
    let mut p = project();
    p.paths.tmp = String::from("D:\\scratch");
    let mut job = Split::new(&p, p.chunks[0].clone());
    let batch = job.build_batch_file();
    assert_eq!(batch.path, "D:\\scratch\\split-0-9.bat");
    assert!(job.cleanup_files.is_empty());
}

#[test]
fn first_pass_names_statistics_file() {
    let p = project();
    let mut job: EncodePass1 = make_pass1(&p, chunk_with("split-10-19.y4m", ""));
    let batch = job.prepare();
    assert_eq!(job.chunk.encoded_file, "split-10-19.y4m-firstpass");
    assert_eq!(batch.path, "tmp\\enc1-split-10-19.y4m.bat");
    assert_eq!(
        batch.contents,
        "@echo off\ntools\\aomenc.exe -v --ivf --passes=2 --pass=1 --fpf=\"enc\\split-10-19.y4m-firstpass\" --cpu-used=3 --end-usage=q --cq-level=30 --tile-rows=0 --tile-columns=0 --threads=2 --tune=psnr --rate-hist=5 --q-hist=5 -o enc\\split-10-19.ivf raws\\split-10-19.y4m\nexit"
    );
    assert_eq!(job.cleanup_files, vec![String::from("tmp\\enc1-split-10-19.y4m.bat")]);
    assert_eq!(job.getresults().encoded_file, "split-10-19.y4m-firstpass");
}

#[test]
fn second_pass_reads_statistics_and_names_encoded_file() {
    let p = project();
    let mut job: EncodePass2 = make_pass2(&p, chunk_with("split-10-19.y4m", "split-10-19.y4m-firstpass"));
    let batch = job.prepare();
    assert_eq!(job.chunk.encoded_file, "split-10-19.ivf");
    assert_eq!(batch.path, "tmp\\enc1-split-10-19.y4m.bat");
    assert_eq!(
        batch.contents,
        "@echo off\ntools\\aomenc.exe -v --ivf --passes=2 --pass=2 --fpf=\"enc\\split-10-19.y4m-firstpass\" --cpu-used=3 --end-usage=q --cq-level=30 --tile-rows=0 --tile-columns=0 --threads=2 --tune=psnr --rate-hist=5 --q-hist=5 -o enc\\split-10-19.ivf raws\\split-10-19.y4m\nexit"
    );
    assert_eq!(
        job.cleanup_files,
        vec![
            String::from("raws\\split-10-19.y4m"),
            String::from("enc\\split-10-19.y4m-firstpass"),
            String::from("tmp\\enc1-split-10-19.y4m.bat"),
        ]
    );
}

#[test]
fn second_pass_keeps_names_without_raw_suffix() {
    let p = project();
    let mut job = EncodePass2::new(&p, chunk_with("chunk.raw", "stats"));
    let _ = job.build_batch_file();
    assert_eq!(job.chunk.encoded_file, "chunk.raw");
    assert!(job.cleanup_files.is_empty());
}

#[test]
fn mediainfo_script_and_report() {
    let p = project();
    let mut job: MediaInfo = make_mediainfo(&p, String::from("ep1-vid.mkv"));
    assert_eq!(job.video_source, "ep1-vid.mkv");
    let batch = job.prepare();
    assert_eq!(batch.path, "tmp\\mediainfo.bat");
    assert_eq!(
        batch.contents,
        "@echo off\ntools\\mediainfo\\MediaInfo.exe -f --Output=JSON --LogFile=tmp\\ep1-vid.mkv.json ep1-vid.mkv\nexit"
    );
    assert_eq!(
        job.cleanup_files,
        vec![String::from("tmp\\mediainfo.bat"), String::from("tmp\\ep1-vid.mkv.json")]
    );
}

#[test]
fn merge_lists_files_and_timing() {
    let mut p = project();
    p.chunks[0].encoded_file = String::from("a.ivf");
    p.chunks[1].encoded_file = String::from("b.ivf");
    let mut job = make_merge(&p);
    assert_eq!(job.build_file_list(), "enc/a.ivf +enc/b.ivf");
    let scripts = job.prepare("23.976");
    assert_eq!(scripts.timestamps.path, "tmp\\timestamps.txt");
    assert_eq!(
        scripts.timestamps.contents,
        "# timestamp format v1\nassume 23.976\n0,9,23.976\n10,19,23.976\n"
    );
    assert_eq!(scripts.batch.path, "tmp\\mkvmerge.bat");
    assert_eq!(
        scripts.batch.contents,
        "@echo off\ntools\\mkvtoolnix\\mkvmerge.exe -o ep1-vid.mkv.encoded.mkv --timestamps 0:tmp\\timestamps.txt enc/a.ivf +enc/b.ivf -D ep1-vid.mkv\nexit"
    );
    assert_eq!(job.timestamp_file, "tmp\\timestamps.txt");
    assert_eq!(
        job.cleanup_files,
        vec![String::from("tmp\\mkvmerge.bat"), String::from("tmp\\timestamps.txt")]
    );
}

#[test]
fn merge_of_project_without_chunks() {
    let p = Project::new(String::from("v.mkv"));
    let mut job = make_merge(&p);
    assert_eq!(job.build_file_list(), "");
    let ts = job.build_timestamp_file("25");
    assert_eq!(ts.contents, "# timestamp format v1\nassume 25\n");
}

#[test]
fn job_info_holds_its_fields() {
    let info = JobInfo { chunk_num: 3, file_name: String::from("x"), start_frame: 1, end_frame: 2 };
    let copy = info.clone();
    assert_eq!(copy.chunk_num, 3);
    assert_eq!(copy.file_name, "x");
}

#[test]
fn split_script_path_does_not_rescan_the_directory_name() {
    let mut p = project();
    p.paths.tmp = String::from("{tmp_dir}x");
    let mut job = Split::new(&p, p.chunks[0].clone());
    assert_eq!(job.build_batch_file().path, "{tmp_dir}x\\split-0-9.bat");
}

#[test]
fn encode_script_path_fills_every_directory_placeholder() {
    let mut p = project();
    p.paths.tmp = String::from("T");
    let mut job = EncodePass1::new(&p, chunk_with("{tmp_dir}.y4m", ""));
    assert_eq!(job.build_batch_file().path, "T\\enc1-T.y4m.bat");
}

#[test]
fn second_pass_after_first_pass_differs_only_in_pass_number() {
    let p = project();
    let mut first = EncodePass1::new(&p, chunk_with("split-0-9.y4m", ""));
    let first_script = first.build_batch_file().contents;
    let mut second = EncodePass2::new(&p, first.getresults());
    let second_script = second.build_batch_file().contents;
    assert_eq!(second_script, first_script.replace("--pass=1", "--pass=2"));
    assert_eq!(second.getresults().encoded_file, "split-0-9.ivf");
}
