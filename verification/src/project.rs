//! The project model: the source video, its working directories and the
//! chunks (scenes) it is cut into, each with its place in the encoding
//! pipeline.

use vstd::prelude::*;

verus! {

/// The JSON value that media inspection reports; carried through unread.
#[verifier::external_type_specification]
#[verifier::external_body]
pub struct ExJsonValue(serde_json::Value);

/// Where a chunk stands in the pipeline.
#[allow(non_camel_case_types)]
#[derive(Debug, Clone, Copy, PartialEq, Eq, Structural)]
pub enum EncodeState {
    NOT_STARTED,
    SPLIT,
    PASS_1,
    PASS_2,
    COMPLETE,
}

/// A chunk whose state is `COMPLETE` or `PASS_2` needs no more work.
pub open spec fn is_done_state(s: EncodeState) -> bool {
    s == EncodeState::COMPLETE || s == EncodeState::PASS_2
}

/// One scene of the source video.
#[derive(Debug)]
pub struct Chunk {
    pub scene_number: usize,
    pub start_frame: usize,
    pub end_frame: usize,
    pub length_frames: usize,
    pub state: EncodeState,
    pub raw_file: String,
    pub firstpass_file: String,
    pub encoded_file: String,
}

impl Clone for Chunk {
    fn clone(&self) -> (res: Self)
        ensures
            res == *self,
    {
        Chunk {
            scene_number: self.scene_number,
            start_frame: self.start_frame,
            end_frame: self.end_frame,
            length_frames: self.length_frames,
            state: self.state,
            raw_file: self.raw_file.clone(),
            firstpass_file: self.firstpass_file.clone(),
            encoded_file: self.encoded_file.clone(),
        }
    }
}

/// Two chunks that agree on everything but their file names.
pub open spec fn same_frames_and_state(a: Chunk, b: Chunk) -> bool {
    &&& a.scene_number == b.scene_number
    &&& a.start_frame == b.start_frame
    &&& a.end_frame == b.end_frame
    &&& a.length_frames == b.length_frames
    &&& a.state == b.state
}

/// The working directories of a project, relative to where it runs.
#[derive(Debug)]
pub struct Dirs {
    pub base: String,
    pub tools: String,
    pub tmp: String,
    pub raw_chunks: String,
    pub encoded_chunks: String,
}

impl Clone for Dirs {
    fn clone(&self) -> (res: Self)
        ensures
            res == *self,
    {
        Dirs {
            base: self.base.clone(),
            tools: self.tools.clone(),
            tmp: self.tmp.clone(),
            raw_chunks: self.raw_chunks.clone(),
            encoded_chunks: self.encoded_chunks.clone(),
        }
    }
}

/// One row of a scene list, as a scene detector writes it: the end frame is
/// the first frame of the next scene.
#[derive(Debug)]
pub struct Record {
    pub scene_number: usize,
    pub start_frame: usize,
    pub start_timecode: String,
    pub end_frame: usize,
    pub end_timecode: String,
    pub length_frames: usize,
    pub length_timecode: String,
}

/// A project: the video to encode, its directories, what media inspection
/// said of it, and its chunks.
#[derive(Debug)]
pub struct Project {
    pub file_name: String,
    pub paths: Dirs,
    pub container_info: Option<serde_json::Value>,
    pub videostream_info: Option<serde_json::Value>,
    pub chunks: Vec<Chunk>,
}

/// `i` is the first position in `s` of a chunk of scene `n`.
pub open spec fn is_first_of_scene(s: Seq<Chunk>, n: usize, i: int) -> bool {
    &&& 0 <= i < s.len()
    &&& s[i].scene_number == n
    &&& forall|j: int| 0 <= j < i ==> s[j].scene_number != n
}

/// The first position in `s` of a chunk of scene `n`, or -1 where there is none.
pub open spec fn scene_index(s: Seq<Chunk>, n: usize) -> int {
    if exists|i: int| is_first_of_scene(s, n, i) {
        choose|i: int| is_first_of_scene(s, n, i)
    } else {
        -1
    }
}

/// The first chunk of scene `n` in `s`, if any.
pub open spec fn scene_of(s: Seq<Chunk>, n: usize) -> Option<Chunk> {
    if scene_index(s, n) >= 0 {
        Some(s[scene_index(s, n)])
    } else {
        None
    }
}

/// The chunk that a scene-list row becomes, but for its (empty) file names:
/// its last frame is the one before the next scene starts.
pub open spec fn chunk_of_record(c: Chunk, r: Record) -> bool {
    &&& c.scene_number == r.scene_number
    &&& c.start_frame == r.start_frame
    &&& c.end_frame == r.end_frame - 1
    &&& c.length_frames == r.length_frames - 1
    &&& c.state == EncodeState::NOT_STARTED
    &&& c.raw_file@.len() == 0
    &&& c.firstpass_file@.len() == 0
    &&& c.encoded_file@.len() == 0
}

proof fn lemma_first_of_scene_unique(s: Seq<Chunk>, n: usize, i: int)
    requires
        is_first_of_scene(s, n, i),
    ensures
        scene_index(s, n) == i,
{
    let k = choose|k: int| is_first_of_scene(s, n, k);
    assert(is_first_of_scene(s, n, k));
    if k < i {
        assert(s[k].scene_number != n);
    } else if i < k {
        assert(s[i].scene_number != n);
    }
}

impl Project {
    /// A project for `filename` with the default directory layout and no
    /// chunks; media inspection has not run yet.
    pub fn new(filename: String) -> (res: Project)
        ensures
            res.file_name == filename,
            res.paths.base@ == Seq::<char>::empty(),
            res.paths.tools@ == "tools"@,
            res.paths.tmp@ == "tmp"@,
            res.paths.raw_chunks@ == "raws"@,
            res.paths.encoded_chunks@ == "enc"@,
            res.container_info.is_none(),
            res.videostream_info.is_none(),
            res.chunks@.len() == 0,
    {
        Project {
            file_name: filename,
            paths: Dirs {
                base: String::new(),
                tools: String::from_str("tools"),
                tmp: String::from_str("tmp"),
                raw_chunks: String::from_str("raws"),
                encoded_chunks: String::from_str("enc"),
            },
            container_info: None,
            videostream_info: None,
            chunks: Vec::new(),
        }
    }

    /// Sets the video that the project encodes.
    pub fn add_target(&mut self, filename: &str)
        ensures
            final(self).file_name@ == filename@,
            final(self).paths == old(self).paths,
            final(self).container_info == old(self).container_info,
            final(self).videostream_info == old(self).videostream_info,
            final(self).chunks == old(self).chunks,
    {
        self.file_name = String::from_str(filename);
    }

    /// Sets the base directory.
    pub fn set_base_path(&mut self, path: String)
        ensures
            final(self).paths.base == path,
            final(self).paths.tools == old(self).paths.tools,
            final(self).paths.tmp == old(self).paths.tmp,
            final(self).paths.raw_chunks == old(self).paths.raw_chunks,
            final(self).paths.encoded_chunks == old(self).paths.encoded_chunks,
            final(self).file_name == old(self).file_name,
            final(self).container_info == old(self).container_info,
            final(self).videostream_info == old(self).videostream_info,
            final(self).chunks == old(self).chunks,
    {
        self.paths.base = path;
    }

    /// Appends the chunk for a scene-list row, not started yet.
    pub fn add_chunk(&mut self, record: Record)
        requires
            record.end_frame >= 1,
            record.length_frames >= 1,
        ensures
            final(self).chunks@.len() == old(self).chunks@.len() + 1,
            final(self).chunks@.drop_last() == old(self).chunks@,
            chunk_of_record(final(self).chunks@.last(), record),
            final(self).file_name == old(self).file_name,
            final(self).paths == old(self).paths,
            final(self).container_info == old(self).container_info,
            final(self).videostream_info == old(self).videostream_info,
    {
        let newchunk = Chunk {
            scene_number: record.scene_number,
            start_frame: record.start_frame,
            end_frame: record.end_frame - 1,
            length_frames: record.length_frames - 1,
            state: EncodeState::NOT_STARTED,
            raw_file: String::new(),
            firstpass_file: String::new(),
            encoded_file: String::new(),
        };
        self.chunks.push(newchunk);
        assert(self.chunks@.drop_last() =~= old(self).chunks@);
    }

    /// A copy of the first chunk of scene `scene_num`, if there is one.
    pub fn get_scene(&self, scene_num: usize) -> (res: Option<Chunk>)
        ensures
            res == scene_of(self.chunks@, scene_num),
    {
        let mut i: usize = 0;
        while i < self.chunks.len()
            invariant
                i <= self.chunks@.len(),
                forall|j: int| 0 <= j < i ==> self.chunks@[j].scene_number != scene_num,
            decreases self.chunks@.len() - i,
        {
            if self.chunks[i].scene_number == scene_num {
                proof {
                    lemma_first_of_scene_unique(self.chunks@, scene_num, i as int);
                }
                return Some(self.chunks[i].clone());
            }
            i = i + 1;
        }
        assert(!exists|k: int| is_first_of_scene(self.chunks@, scene_num, k));
        None
    }

    /// Replaces the first chunk of the scene of `newchunk` with it.
    pub fn update_chunk(&mut self, newchunk: Chunk)
        requires
            scene_index(old(self).chunks@, newchunk.scene_number) >= 0,
        ensures
            final(self).chunks@ == old(self).chunks@.update(
                scene_index(old(self).chunks@, newchunk.scene_number),
                newchunk,
            ),
            final(self).file_name == old(self).file_name,
            final(self).paths == old(self).paths,
            final(self).container_info == old(self).container_info,
            final(self).videostream_info == old(self).videostream_info,
    {
        let ghost n = newchunk.scene_number;
        let mut i: usize = 0;
        while i < self.chunks.len()
            invariant
                self.chunks == old(self).chunks,
                self.file_name == old(self).file_name,
                self.paths == old(self).paths,
                self.container_info == old(self).container_info,
                self.videostream_info == old(self).videostream_info,
                n == newchunk.scene_number,
                scene_index(self.chunks@, n) >= 0,
                i <= self.chunks@.len(),
                forall|j: int| 0 <= j < i ==> self.chunks@[j].scene_number != n,
            decreases self.chunks@.len() - i,
        {
            if self.chunks[i].scene_number == newchunk.scene_number {
                proof {
                    lemma_first_of_scene_unique(self.chunks@, n, i as int);
                }
                self.chunks.set(i, newchunk);
                return;
            }
            i = i + 1;
        }
        proof {
            let k = choose|k: int| is_first_of_scene(self.chunks@, n, k);
            assert(is_first_of_scene(self.chunks@, n, k));
            assert(self.chunks@[k].scene_number != n);
        }
    }

    /// Is there a chunk of scene `scene_num`?
    pub fn has_scene(&self, scene_num: usize) -> (res: bool)
        ensures
            res == (scene_index(self.chunks@, scene_num) >= 0),
    {
        self.get_scene(scene_num).is_some()
    }
}

/// Replacing a scene's chunk and then looking the scene up gives back the
/// new chunk, and leaves what every other scene looks up to unchanged.
pub proof fn lemma_update_then_get(s: Seq<Chunk>, c: Chunk, m: usize)
    requires
        scene_index(s, c.scene_number) >= 0,
    ensures
        scene_of(s.update(scene_index(s, c.scene_number), c), c.scene_number) == Some(c),
        m != c.scene_number ==> scene_of(s.update(scene_index(s, c.scene_number), c), m)
            == scene_of(s, m),
{
    let i = scene_index(s, c.scene_number);
    let t = s.update(i, c);
    assert(is_first_of_scene(s, c.scene_number, i));
    assert(is_first_of_scene(t, c.scene_number, i));
    lemma_first_of_scene_unique(t, c.scene_number, i);
    if m != c.scene_number {
        if scene_index(s, m) >= 0 {
            let k = scene_index(s, m);
            assert(is_first_of_scene(s, m, k));
            assert(is_first_of_scene(t, m, k));
            lemma_first_of_scene_unique(t, m, k);
        } else {
            if exists|k: int| is_first_of_scene(t, m, k) {
                let k = choose|k: int| is_first_of_scene(t, m, k);
                assert(k != i);
                assert forall|j: int| 0 <= j < k implies s[j].scene_number != m by {
                    if j != i {
                        assert(t[j] == s[j]);
                    }
                }
                assert(is_first_of_scene(s, m, k));
            }
        }
    }
}

} // verus!
