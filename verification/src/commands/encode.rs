//! The two passes of the encoder over one raw chunk.

use vstd::prelude::*;
use crate::text::{replace_all, replace_seq, lemma_replace_leading};
use crate::project::{Chunk, Dirs, Project, same_frames_and_state};
use crate::commands::{BatchFile, batch_script, fill_template, build_batch_contents, args_view};

verus! {

/// The encoder command; `-o` names the encoded file and the last argument
/// the raw chunk.
pub const AOMENC_BASE_COMMAND: &'static str = "{tools_path}\\aomenc.exe \
                                           -v --ivf --passes=2 \
                                           --pass={pass_num} \
                                           --fpf=\"{enc_path}\\{passfile_name}\" \
                                           --cpu-used=3 --end-usage=q --cq-level=30 \
                                           --tile-rows=0 --tile-columns=0 --threads=2 \
                                           --tune=psnr --rate-hist=5 --q-hist=5 \
                                           -o {enc_path}\\{encoded_filename} \
                                           {raw_path}\\{raw_chunk_filename}";

/// The encoded file that a raw chunk becomes.
pub open spec fn ivf_name(raw: Seq<char>) -> Seq<char> {
    replace_seq(raw, ".y4m"@, ".ivf"@)
}

/// The statistics file that the first pass over a raw chunk writes.
pub open spec fn firstpass_name(raw: Seq<char>) -> Seq<char> {
    raw + "-firstpass"@
}

/// Where the script of either pass over the raw chunk `raw` goes.
pub open spec fn encode_batch_path(tmp: Seq<char>, raw: Seq<char>) -> Seq<char> {
    replace_seq("{tmp_dir}\\enc1-"@ + raw + ".bat"@, "{tmp_dir}"@, tmp)
}

/// The arguments of the encoder command.
pub open spec fn encode_args(
    dirs: Dirs,
    pass_num: Seq<char>,
    passfile: Seq<char>,
    encoded: Seq<char>,
    raw: Seq<char>,
) -> Seq<(Seq<char>, Seq<char>)> {
    seq![
        ("tools_path"@, dirs.tools@),
        ("pass_num"@, pass_num),
        ("passfile_name"@, passfile),
        ("enc_path"@, dirs.encoded_chunks@),
        ("encoded_filename"@, encoded),
        ("raw_path"@, dirs.raw_chunks@),
        ("raw_chunk_filename"@, raw),
    ]
}

/// The first pass of the encoder over a chunk.
#[derive(Debug)]
pub struct EncodePass1 {
    pub chunk: Chunk,
    pub cleanup_files: Vec<String>,
    pub dirs: Dirs,
}

/// The second pass of the encoder over a chunk.
#[derive(Debug)]
pub struct EncodePass2 {
    pub chunk: Chunk,
    pub cleanup_files: Vec<String>,
    pub dirs: Dirs,
}

/// `job` is a first pass over `chunk` in `project` that has not been prepared.
pub open spec fn fresh_pass1(job: EncodePass1, project: Project, chunk: Chunk) -> bool {
    &&& job.chunk == chunk
    &&& job.cleanup_files@.len() == 0
    &&& job.dirs == project.paths
}

/// `job` is a second pass over `chunk` in `project` that has not been prepared.
pub open spec fn fresh_pass2(job: EncodePass2, project: Project, chunk: Chunk) -> bool {
    &&& job.chunk == chunk
    &&& job.cleanup_files@.len() == 0
    &&& job.dirs == project.paths
}

/// Builds the path of the script of either pass over `raw`.
fn encode_batch_file_name(tmp: &String, raw: &String) -> (res: String)
    ensures
        res@ == encode_batch_path(tmp@, raw@),
{
    proof {
        reveal_strlit("{tmp_dir}");
    }
    let unfilled = String::from_str("{tmp_dir}\\enc1-").concat(raw.as_str()).concat(".bat");
    replace_all(unfilled.as_str(), "{tmp_dir}", tmp.as_str())
}

/// Builds the arguments of the encoder command.
fn encode_arguments(
    dirs: &Dirs,
    pass_num: &'static str,
    passfile: String,
    encoded: String,
    raw: String,
) -> (res: Vec<(&'static str, String)>)
    ensures
        args_view(res@) == encode_args(*dirs, pass_num@, passfile@, encoded@, raw@),
{
    let mut args: Vec<(&str, String)> = Vec::new();
    args.push(("tools_path", dirs.tools.clone()));
    args.push(("pass_num", String::from_str(pass_num)));
    args.push(("passfile_name", passfile));
    args.push(("enc_path", dirs.encoded_chunks.clone()));
    args.push(("encoded_filename", encoded));
    args.push(("raw_path", dirs.raw_chunks.clone()));
    args.push(("raw_chunk_filename", raw));
    assert(args_view(args@) =~= encode_args(*dirs, pass_num@, passfile@, encoded@, raw@));
    args
}

impl EncodePass1 {
    /// A first pass over `chunk` in `project`, with nothing to clean up yet.
    pub fn new(project: &Project, chunk: Chunk) -> (res: EncodePass1)
        ensures
            fresh_pass1(res, *project, chunk),
    {
        EncodePass1 { chunk: chunk, cleanup_files: Vec::new(), dirs: project.paths.clone() }
    }

    /// Names the statistics file of the chunk after its raw file and builds
    /// the script of the first pass.
    pub fn build_batch_file(&mut self) -> (res: BatchFile)
        ensures
            same_frames_and_state(final(self).chunk, old(self).chunk),
            final(self).chunk.raw_file == old(self).chunk.raw_file,
            final(self).chunk.firstpass_file == old(self).chunk.firstpass_file,
            final(self).chunk.encoded_file@ == firstpass_name(old(self).chunk.raw_file@),
            final(self).cleanup_files == old(self).cleanup_files,
            final(self).dirs == old(self).dirs,
            res.path@ == encode_batch_path(old(self).dirs.tmp@, old(self).chunk.raw_file@),
            res.contents@ == batch_script(
                fill_template(
                    AOMENC_BASE_COMMAND@,
                    encode_args(
                        old(self).dirs,
                        "1"@,
                        firstpass_name(old(self).chunk.raw_file@),
                        ivf_name(old(self).chunk.raw_file@),
                        old(self).chunk.raw_file@,
                    ),
                ),
            ),
    {
        proof {
            reveal_strlit(".y4m");
        }
        self.chunk.encoded_file = self.chunk.raw_file.clone().concat("-firstpass");
        let encoded = replace_all(self.chunk.raw_file.as_str(), ".y4m", ".ivf");
        let args = encode_arguments(
            &self.dirs,
            "1",
            self.chunk.encoded_file.clone(),
            encoded,
            self.chunk.raw_file.clone(),
        );
        let contents = build_batch_contents(AOMENC_BASE_COMMAND, args);
        let path = encode_batch_file_name(&self.dirs.tmp, &self.chunk.raw_file);
        BatchFile { path, contents }
    }

    /// Builds the script of the first pass and records it for removal once
    /// the job is over. The caller writes the script and runs it.
    pub fn prepare(&mut self) -> (res: BatchFile)
        ensures
            same_frames_and_state(final(self).chunk, old(self).chunk),
            final(self).chunk.raw_file == old(self).chunk.raw_file,
            final(self).chunk.firstpass_file == old(self).chunk.firstpass_file,
            final(self).chunk.encoded_file@ == firstpass_name(old(self).chunk.raw_file@),
            final(self).cleanup_files@ == old(self).cleanup_files@.push(res.path),
            final(self).dirs == old(self).dirs,
            res.path@ == encode_batch_path(old(self).dirs.tmp@, old(self).chunk.raw_file@),
            res.contents@ == batch_script(
                fill_template(
                    AOMENC_BASE_COMMAND@,
                    encode_args(
                        old(self).dirs,
                        "1"@,
                        firstpass_name(old(self).chunk.raw_file@),
                        ivf_name(old(self).chunk.raw_file@),
                        old(self).chunk.raw_file@,
                    ),
                ),
            ),
    {
        let batch = self.build_batch_file();
        self.cleanup_files.push(batch.path.clone());
        batch
    }

    /// The chunk as the job leaves it.
    pub fn getresults(&self) -> (res: Chunk)
        ensures
            res == self.chunk,
    {
        self.chunk.clone()
    }
}

impl EncodePass2 {
    /// A second pass over `chunk` in `project`, with nothing to clean up yet.
    pub fn new(project: &Project, chunk: Chunk) -> (res: EncodePass2)
        ensures
            fresh_pass2(res, *project, chunk),
    {
        EncodePass2 { chunk: chunk, cleanup_files: Vec::new(), dirs: project.paths.clone() }
    }

    /// Names the encoded file of the chunk after its raw file and builds the
    /// script of the second pass, which reads the statistics file that the
    /// chunk named before.
    pub fn build_batch_file(&mut self) -> (res: BatchFile)
        ensures
            same_frames_and_state(final(self).chunk, old(self).chunk),
            final(self).chunk.raw_file == old(self).chunk.raw_file,
            final(self).chunk.firstpass_file == old(self).chunk.firstpass_file,
            final(self).chunk.encoded_file@ == ivf_name(old(self).chunk.raw_file@),
            final(self).cleanup_files == old(self).cleanup_files,
            final(self).dirs == old(self).dirs,
            res.path@ == encode_batch_path(old(self).dirs.tmp@, old(self).chunk.raw_file@),
            res.contents@ == batch_script(
                fill_template(
                    AOMENC_BASE_COMMAND@,
                    encode_args(
                        old(self).dirs,
                        "2"@,
                        old(self).chunk.encoded_file@,
                        ivf_name(old(self).chunk.raw_file@),
                        old(self).chunk.raw_file@,
                    ),
                ),
            ),
    {
        proof {
            reveal_strlit(".y4m");
        }
        let firstpass_file = self.chunk.encoded_file.clone();
        self.chunk.encoded_file = replace_all(self.chunk.raw_file.as_str(), ".y4m", ".ivf");
        let args = encode_arguments(
            &self.dirs,
            "2",
            firstpass_file,
            self.chunk.encoded_file.clone(),
            self.chunk.raw_file.clone(),
        );
        let contents = build_batch_contents(AOMENC_BASE_COMMAND, args);
        let path = encode_batch_file_name(&self.dirs.tmp, &self.chunk.raw_file);
        BatchFile { path, contents }
    }

    /// Records the raw chunk and the statistics file for removal, since the
    /// second pass is their last reader, then builds the script of the
    /// second pass and records it too. The caller writes the script and runs
    /// it.
    pub fn prepare(&mut self) -> (res: BatchFile)
        ensures
            same_frames_and_state(final(self).chunk, old(self).chunk),
            final(self).chunk.raw_file == old(self).chunk.raw_file,
            final(self).chunk.firstpass_file == old(self).chunk.firstpass_file,
            final(self).chunk.encoded_file@ == ivf_name(old(self).chunk.raw_file@),
            final(self).cleanup_files@.len() == old(self).cleanup_files@.len() + 3,
            final(self).cleanup_files@.take(old(self).cleanup_files@.len() as int)
                == old(self).cleanup_files@,
            final(self).cleanup_files@[old(self).cleanup_files@.len() as int]@
                == old(self).dirs.raw_chunks@ + "\\"@ + old(self).chunk.raw_file@,
            final(self).cleanup_files@[old(self).cleanup_files@.len() + 1int]@
                == old(self).dirs.encoded_chunks@ + "\\"@ + old(self).chunk.encoded_file@,
            final(self).cleanup_files@[old(self).cleanup_files@.len() + 2int] == res.path,
            final(self).dirs == old(self).dirs,
            res.path@ == encode_batch_path(old(self).dirs.tmp@, old(self).chunk.raw_file@),
            res.contents@ == batch_script(
                fill_template(
                    AOMENC_BASE_COMMAND@,
                    encode_args(
                        old(self).dirs,
                        "2"@,
                        old(self).chunk.encoded_file@,
                        ivf_name(old(self).chunk.raw_file@),
                        old(self).chunk.raw_file@,
                    ),
                ),
            ),
    {
        let raw_path = self.dirs.raw_chunks.clone().concat("\\").concat(self.chunk.raw_file.as_str());
        self.cleanup_files.push(raw_path);
        let firstpass_path = self.dirs.encoded_chunks.clone().concat("\\").concat(
            self.chunk.encoded_file.as_str(),
        );
        self.cleanup_files.push(firstpass_path);
        let batch = self.build_batch_file();
        self.cleanup_files.push(batch.path.clone());
        assert(self.cleanup_files@.take(old(self).cleanup_files@.len() as int)
            =~= old(self).cleanup_files@);
        batch
    }

    /// The chunk as the job leaves it.
    pub fn getresults(&self) -> (res: Chunk)
        ensures
            res == self.chunk,
    {
        self.chunk.clone()
    }
}

/// The second pass over a chunk as the first pass left it reads the
/// statistics file that the first pass wrote, and writes the encoded file
/// that the first pass named: the two commands differ in the pass number
/// alone.
pub proof fn lemma_passes_agree(dirs: Dirs, chunk: Chunk)
    requires
        chunk.encoded_file@ == firstpass_name(chunk.raw_file@),
    ensures
        encode_args(dirs, "2"@, chunk.encoded_file@, ivf_name(chunk.raw_file@), chunk.raw_file@)
            == encode_args(
            dirs,
            "1"@,
            firstpass_name(chunk.raw_file@),
            ivf_name(chunk.raw_file@),
            chunk.raw_file@,
        ).update(1, ("pass_num"@, "2"@)),
{
    assert(encode_args(dirs, "2"@, chunk.encoded_file@, ivf_name(chunk.raw_file@), chunk.raw_file@)
        =~= encode_args(
        dirs,
        "1"@,
        firstpass_name(chunk.raw_file@),
        ivf_name(chunk.raw_file@),
        chunk.raw_file@,
    ).update(1, ("pass_num"@, "2"@)));
}

/// The script of either pass over a raw chunk whose name holds no `{` goes
/// to the temp directory as `enc1-<raw>.bat`.
pub proof fn lemma_encode_batch_path(tmp: Seq<char>, raw: Seq<char>)
    requires
        forall|k: int| 0 <= k < raw.len() ==> raw[k] != '{',
    ensures
        encode_batch_path(tmp, raw) == tmp + "\\enc1-"@ + raw + ".bat"@,
{
    reveal_strlit("{tmp_dir}");
    reveal_strlit("{tmp_dir}\\enc1-");
    reveal_strlit("\\enc1-");
    reveal_strlit(".bat");
    let pat = "{tmp_dir}"@;
    let rest = "\\enc1-"@ + raw + ".bat"@;
    assert("{tmp_dir}\\enc1-"@ + raw + ".bat"@ =~= pat + rest);
    assert forall|k: int| 0 <= k < rest.len() implies rest[k] != pat[0] by {
        let a = "\\enc1-"@.len() as int;
        if a <= k < a + raw.len() {
            assert(rest[k] == raw[k - a]);
        }
    }
    lemma_replace_leading(pat, rest, tmp);
    assert(tmp + rest =~= tmp + "\\enc1-"@ + raw + ".bat"@);
}

} // verus!
