//! The job that cuts one chunk out of the source video as raw frames.

use vstd::prelude::*;
use crate::text::{
    decimal, replace_all, replace_seq, usize_to_decimal, lemma_decimal_digits,
    lemma_replace_leading,
};
use crate::project::{Chunk, Dirs, Project, same_frames_and_state};
use crate::commands::{BatchFile, batch_script, fill_template, build_batch_contents};

verus! {

/// The command that writes frames `{sf}` to `{ef}` of `{source_file}` as a
/// raw file.
pub const FFMPEG_SPLIT_BASE_COMMAND: &'static str = "{tools_path}\\ffmpeg.exe \
                                            -y \
                                            -i {source_file} \
                                            -vf select=\"between(n\\,{sf}\\,{ef}),setpts=PTS-STARTPTS\" \
                                            -pix_fmt yuv420p \
                                            {raws_path}\\{dest_file}";

/// A split job.
#[derive(Debug)]
pub struct Split {
    pub chunk: Chunk,
    pub cleanup_files: Vec<String>,
    pub video_source: String,
    pub dirs: Dirs,
}

/// The raw file that the split of frames `sf` to `ef` writes.
pub open spec fn split_raw_name(sf: usize, ef: usize) -> Seq<char> {
    "split-"@ + decimal(sf as nat) + "-"@ + decimal(ef as nat) + ".y4m"@
}

/// Where the split script of frames `sf` to `ef` goes.
pub open spec fn split_batch_path(tmp: Seq<char>, sf: usize, ef: usize) -> Seq<char> {
    replace_seq(
        "{tmp_dir}\\split-"@ + decimal(sf as nat) + "-"@ + decimal(ef as nat) + ".bat"@,
        "{tmp_dir}"@,
        tmp,
    )
}

/// The arguments of the split command.
pub open spec fn split_args(dirs: Dirs, source: Seq<char>, chunk: Chunk) -> Seq<(Seq<char>, Seq<char>)> {
    seq![
        ("tools_path"@, dirs.tools@),
        ("source_file"@, source),
        ("sf"@, decimal(chunk.start_frame as nat)),
        ("ef"@, decimal(chunk.end_frame as nat)),
        ("raws_path"@, dirs.raw_chunks@),
        ("dest_file"@, split_raw_name(chunk.start_frame, chunk.end_frame)),
    ]
}

/// `job` is a split job of `chunk` in `project` that has not been prepared.
pub open spec fn fresh_split(job: Split, project: Project, chunk: Chunk) -> bool {
    &&& job.chunk == chunk
    &&& job.cleanup_files@.len() == 0
    &&& job.video_source == project.file_name
    &&& job.dirs == project.paths
}

impl Split {
    /// A split job of `chunk` in `project`, with nothing to clean up yet.
    pub fn new(project: &Project, chunk: Chunk) -> (res: Split)
        ensures
            fresh_split(res, *project, chunk),
    {
        Split {
            chunk: chunk,
            cleanup_files: Vec::new(),
            video_source: project.file_name.clone(),
            dirs: project.paths.clone(),
        }
    }

    /// Names the raw file of the chunk after its frames and builds the
    /// script that writes it.
    pub fn build_batch_file(&mut self) -> (res: BatchFile)
        ensures
            same_frames_and_state(final(self).chunk, old(self).chunk),
            final(self).chunk.raw_file@ == split_raw_name(
                old(self).chunk.start_frame,
                old(self).chunk.end_frame,
            ),
            final(self).chunk.firstpass_file == old(self).chunk.firstpass_file,
            final(self).chunk.encoded_file == old(self).chunk.encoded_file,
            final(self).cleanup_files == old(self).cleanup_files,
            final(self).video_source == old(self).video_source,
            final(self).dirs == old(self).dirs,
            res.path@ == split_batch_path(
                old(self).dirs.tmp@,
                old(self).chunk.start_frame,
                old(self).chunk.end_frame,
            ),
            res.contents@ == batch_script(
                fill_template(
                    FFMPEG_SPLIT_BASE_COMMAND@,
                    split_args(old(self).dirs, old(self).video_source@, old(self).chunk),
                ),
            ),
    {
        proof {
            reveal_strlit("{tmp_dir}");
        }
        let sf = usize_to_decimal(self.chunk.start_frame);
        let ef = usize_to_decimal(self.chunk.end_frame);
        self.chunk.raw_file = String::from_str("split-").concat(sf.as_str()).concat("-").concat(
            ef.as_str(),
        ).concat(".y4m");
        let mut args: Vec<(&str, String)> = Vec::new();
        args.push(("tools_path", self.dirs.tools.clone()));
        args.push(("source_file", self.video_source.clone()));
        args.push(("sf", sf.clone()));
        args.push(("ef", ef.clone()));
        args.push(("raws_path", self.dirs.raw_chunks.clone()));
        args.push(("dest_file", self.chunk.raw_file.clone()));
        proof {
            assert(crate::commands::args_view(args@) =~= split_args(
                self.dirs,
                self.video_source@,
                old(self).chunk,
            ));
        }
        let contents = build_batch_contents(FFMPEG_SPLIT_BASE_COMMAND, args);
        let unfilled = String::from_str("{tmp_dir}\\split-").concat(sf.as_str()).concat("-").concat(
            ef.as_str(),
        ).concat(".bat");
        let path = replace_all(unfilled.as_str(), "{tmp_dir}", self.dirs.tmp.as_str());
        BatchFile { path, contents }
    }

    /// Builds the script of the job and records it for removal once the job
    /// is over. The caller writes the script and runs it.
    pub fn prepare(&mut self) -> (res: BatchFile)
        ensures
            same_frames_and_state(final(self).chunk, old(self).chunk),
            final(self).chunk.raw_file@ == split_raw_name(
                old(self).chunk.start_frame,
                old(self).chunk.end_frame,
            ),
            final(self).chunk.firstpass_file == old(self).chunk.firstpass_file,
            final(self).chunk.encoded_file == old(self).chunk.encoded_file,
            final(self).cleanup_files@ == old(self).cleanup_files@.push(res.path),
            final(self).video_source == old(self).video_source,
            final(self).dirs == old(self).dirs,
            res.path@ == split_batch_path(
                old(self).dirs.tmp@,
                old(self).chunk.start_frame,
                old(self).chunk.end_frame,
            ),
            res.contents@ == batch_script(
                fill_template(
                    FFMPEG_SPLIT_BASE_COMMAND@,
                    split_args(old(self).dirs, old(self).video_source@, old(self).chunk),
                ),
            ),
    {
        let batch = self.build_batch_file();
        self.cleanup_files.push(batch.path.clone());
        batch
    }

    /// The chunk as the job leaves it.
    pub fn getresults(&self) -> (res: Chunk)
        ensures
            res == self.chunk,
    {
        self.chunk.clone()
    }
}

/// The split script of frames `sf` to `ef` goes to the temp directory under
/// the name `split-<sf>-<ef>.bat`, whatever the directory is called.
pub proof fn lemma_split_batch_path(tmp: Seq<char>, sf: usize, ef: usize)
    ensures
        split_batch_path(tmp, sf, ef) == tmp + "\\split-"@ + decimal(sf as nat) + "-"@ + decimal(
            ef as nat,
        ) + ".bat"@,
{
    reveal_strlit("{tmp_dir}");
    reveal_strlit("{tmp_dir}\\split-");
    reveal_strlit("\\split-");
    reveal_strlit("-");
    reveal_strlit(".bat");
    lemma_decimal_digits(sf as nat);
    lemma_decimal_digits(ef as nat);
    let pat = "{tmp_dir}"@;
    let d1 = decimal(sf as nat);
    let d2 = decimal(ef as nat);
    let rest = "\\split-"@ + d1 + "-"@ + d2 + ".bat"@;
    assert("{tmp_dir}\\split-"@ =~= pat + "\\split-"@);
    assert("{tmp_dir}\\split-"@ + d1 + "-"@ + d2 + ".bat"@ =~= pat + rest);
    assert forall|k: int| 0 <= k < rest.len() implies rest[k] != pat[0] by {
        let a = "\\split-"@.len() as int;
        let b = a + d1.len();
        let c = b + 1;
        let e = c + d2.len();
        if k < a {
        } else if k < b {
            assert(rest[k] == d1[k - a]);
        } else if k < c {
        } else if k < e {
            assert(rest[k] == d2[k - c]);
        } else {
        }
    }
    lemma_replace_leading(pat, rest, tmp);
    assert(tmp + rest =~= tmp + "\\split-"@ + d1 + "-"@ + d2 + ".bat"@);
}

} // verus!
