//! The job that joins the encoded chunks into one video, with the frame
//! timing of the source.

use vstd::prelude::*;
use crate::text::{
    decimal, replace_all, replace_seq, usize_to_decimal, lemma_replace_leading,
    lemma_replace_keeps_char,
};
use crate::project::{Chunk, Project};
use crate::commands::{BatchFile, batch_script, fill_template, build_batch_contents, args_view};

verus! {

/// The joining command: the encoded chunks in order, the timing file, and
/// every track but the video of the source.
pub const MKVMERGE_BASE_COMMAND: &'static str = "{tools_path}\\mkvtoolnix\\mkvmerge.exe \
                                             -o {output_file} \
                                             --timestamps 0:{timestamps_file} \
                                             {encoded_file_list} \
                                             -D {original_file}";

/// A joining job over the chunks of a project.
#[derive(Debug)]
pub struct Merge<'a> {
    pub timestamp_file: String,
    pub cleanup_files: Vec<String>,
    pub project: &'a Project,
}

/// The two files that a joining job writes before it runs: the timing file
/// and the script.
#[derive(Debug)]
pub struct MergeScripts {
    pub timestamps: BatchFile,
    pub batch: BatchFile,
}

/// The path of an encoded chunk, with `{filename}` still open, under the
/// encoded-chunk directory `enc`.
pub open spec fn encoded_path_skeleton(enc: Seq<char>) -> Seq<char> {
    replace_seq("{enc_path}/{filename}"@, "{enc_path}"@, enc)
}

/// The encoded files of `chunks` under `skel`, in order, joined by ` +`.
pub open spec fn file_list(skel: Seq<char>, chunks: Seq<Chunk>) -> Seq<char>
    decreases chunks.len(),
{
    if chunks.len() == 0 {
        Seq::empty()
    } else {
        let acc = file_list(skel, chunks.drop_last());
        let item = replace_seq(skel, "{filename}"@, chunks.last().encoded_file@);
        if acc.len() == 0 {
            item
        } else {
            acc + " +"@ + item
        }
    }
}

/// The timing lines of `chunks`, one per chunk, from the line skeleton `skel`.
pub open spec fn timestamp_lines(skel: Seq<char>, chunks: Seq<Chunk>) -> Seq<char>
    decreases chunks.len(),
{
    if chunks.len() == 0 {
        Seq::empty()
    } else {
        timestamp_lines(skel, chunks.drop_last()) + replace_seq(
            replace_seq(skel, "{sf}"@, decimal(chunks.last().start_frame as nat)),
            "{ef}"@,
            decimal(chunks.last().end_frame as nat),
        )
    }
}

/// The timing file at frame rate `fps`: a header, the default rate, and the
/// frame range of each chunk at that rate.
pub open spec fn timestamps_contents(fps: Seq<char>, chunks: Seq<Chunk>) -> Seq<char> {
    "# timestamp format v1\n"@ + replace_seq("assume {fps}\n"@, "{fps}"@, fps) + timestamp_lines(
        replace_seq("{sf},{ef},{fps}\n"@, "{fps}"@, fps),
        chunks,
    )
}

/// Where the timing file goes.
pub open spec fn timestamps_path(tmp: Seq<char>) -> Seq<char> {
    replace_seq("{tmp_path}\\timestamps.txt"@, "{tmp_path}"@, tmp)
}

/// Where the joining script goes.
pub open spec fn merge_batch_path(tmp: Seq<char>) -> Seq<char> {
    replace_seq("{tmp_dir}\\mkvmerge.bat"@, "{tmp_dir}"@, tmp)
}

/// The arguments of the joining command.
pub open spec fn merge_args(project: Project, timestamps: Seq<char>, files: Seq<char>) -> Seq<
    (Seq<char>, Seq<char>),
> {
    seq![
        ("tools_path"@, project.paths.tools@),
        ("output_file"@, project.file_name@ + ".encoded.mkv"@),
        ("timestamps_file"@, timestamps),
        ("encoded_file_list"@, files),
        ("original_file"@, project.file_name@),
    ]
}

impl<'a> Merge<'a> {
    /// A joining job over `project`, with nothing to clean up yet.
    pub fn new(project: &'a Project) -> (res: Merge<'a>)
        ensures
            res.timestamp_file@.len() == 0,
            res.cleanup_files@.len() == 0,
            res.project == project,
    {
        Merge { timestamp_file: String::new(), cleanup_files: Vec::new(), project: project }
    }

    /// The encoded files of the chunks, in order, joined by ` +`.
    pub fn build_file_list(&self) -> (res: String)
        ensures
            res@ == file_list(
                encoded_path_skeleton(self.project.paths.encoded_chunks@),
                self.project.chunks@,
            ),
    {
        proof {
            reveal_strlit("{enc_path}");
        }
        let pathskelly = replace_all(
            "{enc_path}/{filename}",
            "{enc_path}",
            self.project.paths.encoded_chunks.as_str(),
        );
        let ghost chunks = self.project.chunks@;
        let mut returnstring = String::new();
        let mut i: usize = 0;
        while i < self.project.chunks.len()
            invariant
                chunks == self.project.chunks@,
                i <= chunks.len(),
                pathskelly@ == encoded_path_skeleton(self.project.paths.encoded_chunks@),
                returnstring@ == file_list(pathskelly@, chunks.take(i as int)),
            decreases chunks.len() - i,
        {
            proof {
                reveal_strlit("{filename}");
            }
            assert(chunks.take(i + 1).drop_last() =~= chunks.take(i as int));
            let item = replace_all(
                pathskelly.as_str(),
                "{filename}",
                self.project.chunks[i].encoded_file.as_str(),
            );
            if !returnstring.as_str().is_empty() {
                returnstring.append(" +");
            }
            returnstring.append(item.as_str());
            i = i + 1;
        }
        assert(chunks.take(chunks.len() as int) =~= chunks);
        returnstring
    }

    /// Builds the timing file at frame rate `fps` and remembers where it goes.
    pub fn build_timestamp_file(&mut self, fps: &str) -> (res: BatchFile)
        ensures
            final(self).project == old(self).project,
            final(self).cleanup_files == old(self).cleanup_files,
            final(self).timestamp_file == res.path,
            res.path@ == timestamps_path(old(self).project.paths.tmp@),
            res.contents@ == timestamps_contents(fps@, old(self).project.chunks@),
    {
        proof {
            reveal_strlit("{tmp_path}");
            reveal_strlit("{fps}");
        }
        let path = replace_all("{tmp_path}\\timestamps.txt", "{tmp_path}", self.project.paths.tmp.as_str());
        let mut contents = String::from_str("# timestamp format v1\n");
        let line = replace_all("assume {fps}\n", "{fps}", fps);
        contents.append(line.as_str());
        let ghost head = contents@;
        let skelly = replace_all("{sf},{ef},{fps}\n", "{fps}", fps);
        let ghost chunks = self.project.chunks@;
        let mut i: usize = 0;
        while i < self.project.chunks.len()
            invariant
                chunks == self.project.chunks@,
                i <= chunks.len(),
                contents@ == head + timestamp_lines(skelly@, chunks.take(i as int)),
            decreases chunks.len() - i,
        {
            proof {
                reveal_strlit("{sf}");
                reveal_strlit("{ef}");
            }
            assert(chunks.take(i + 1).drop_last() =~= chunks.take(i as int));
            let sf = usize_to_decimal(self.project.chunks[i].start_frame);
            let ef = usize_to_decimal(self.project.chunks[i].end_frame);
            let with_start = replace_all(skelly.as_str(), "{sf}", sf.as_str());
            let line = replace_all(with_start.as_str(), "{ef}", ef.as_str());
            let ghost before = contents@;
            contents.append(line.as_str());
            assert(contents@ =~= head + timestamp_lines(skelly@, chunks.take(i + 1)));
            i = i + 1;
        }
        assert(chunks.take(chunks.len() as int) =~= chunks);
        self.timestamp_file = path.clone();
        BatchFile { path, contents }
    }

    /// Builds the timing file at frame rate `fps` and the joining script.
    pub fn build_batch_file(&mut self, fps: &str) -> (res: MergeScripts)
        ensures
            final(self).project == old(self).project,
            final(self).cleanup_files == old(self).cleanup_files,
            final(self).timestamp_file == res.timestamps.path,
            res.timestamps.path@ == timestamps_path(old(self).project.paths.tmp@),
            res.timestamps.contents@ == timestamps_contents(fps@, old(self).project.chunks@),
            res.batch.path@ == merge_batch_path(old(self).project.paths.tmp@),
            res.batch.contents@ == batch_script(
                fill_template(
                    MKVMERGE_BASE_COMMAND@,
                    merge_args(
                        *old(self).project,
                        timestamps_path(old(self).project.paths.tmp@),
                        file_list(
                            encoded_path_skeleton(old(self).project.paths.encoded_chunks@),
                            old(self).project.chunks@,
                        ),
                    ),
                ),
            ),
    {
        proof {
            reveal_strlit("{tmp_dir}");
        }
        let files = self.build_file_list();
        let timestamps = self.build_timestamp_file(fps);
        let outfile = self.project.file_name.clone().concat(".encoded.mkv");
        let mut args: Vec<(&str, String)> = Vec::new();
        args.push(("tools_path", self.project.paths.tools.clone()));
        args.push(("output_file", outfile));
        args.push(("timestamps_file", self.timestamp_file.clone()));
        args.push(("encoded_file_list", files));
        args.push(("original_file", self.project.file_name.clone()));
        assert(args_view(args@) =~= merge_args(
            *self.project,
            timestamps_path(self.project.paths.tmp@),
            file_list(
                encoded_path_skeleton(self.project.paths.encoded_chunks@),
                self.project.chunks@,
            ),
        ));
        let contents = build_batch_contents(MKVMERGE_BASE_COMMAND, args);
        let path = replace_all("{tmp_dir}\\mkvmerge.bat", "{tmp_dir}", self.project.paths.tmp.as_str());
        MergeScripts { timestamps, batch: BatchFile { path, contents } }
    }

    /// Builds both files and records them for removal once the job is over.
    /// The caller writes them and runs the script.
    pub fn prepare(&mut self, fps: &str) -> (res: MergeScripts)
        ensures
            final(self).project == old(self).project,
            final(self).timestamp_file == res.timestamps.path,
            final(self).cleanup_files@ == old(self).cleanup_files@.push(res.batch.path).push(
                res.timestamps.path,
            ),
            res.timestamps.path@ == timestamps_path(old(self).project.paths.tmp@),
            res.timestamps.contents@ == timestamps_contents(fps@, old(self).project.chunks@),
            res.batch.path@ == merge_batch_path(old(self).project.paths.tmp@),
            res.batch.contents@ == batch_script(
                fill_template(
                    MKVMERGE_BASE_COMMAND@,
                    merge_args(
                        *old(self).project,
                        timestamps_path(old(self).project.paths.tmp@),
                        file_list(
                            encoded_path_skeleton(old(self).project.paths.encoded_chunks@),
                            old(self).project.chunks@,
                        ),
                    ),
                ),
            ),
    {
        let scripts = self.build_batch_file(fps);
        self.cleanup_files.push(scripts.batch.path.clone());
        self.cleanup_files.push(self.timestamp_file.clone());
        scripts
    }
}

/// The timing file and the joining script go to the temp directory,
/// whatever it is called.
pub proof fn lemma_merge_paths(tmp: Seq<char>)
    ensures
        timestamps_path(tmp) == tmp + "\\timestamps.txt"@,
        merge_batch_path(tmp) == tmp + "\\mkvmerge.bat"@,
{
    reveal_strlit("{tmp_path}");
    reveal_strlit("{tmp_path}\\timestamps.txt");
    reveal_strlit("\\timestamps.txt");
    reveal_strlit("{tmp_dir}");
    reveal_strlit("{tmp_dir}\\mkvmerge.bat");
    reveal_strlit("\\mkvmerge.bat");
    assert("{tmp_path}\\timestamps.txt"@ =~= "{tmp_path}"@ + "\\timestamps.txt"@);
    lemma_replace_leading("{tmp_path}"@, "\\timestamps.txt"@, tmp);
    assert("{tmp_dir}\\mkvmerge.bat"@ =~= "{tmp_dir}"@ + "\\mkvmerge.bat"@);
    lemma_replace_leading("{tmp_dir}"@, "\\mkvmerge.bat"@, tmp);
}

/// The file list grows by exactly one entry per chunk of the project, in
/// project order and whatever the chunk's state: the entry of chunk `i` is
/// the skeleton with its encoded file filled in, preceded by ` +` unless it
/// is the first. This holds where every entry is non-empty.
pub proof fn lemma_file_list_one_entry_per_chunk(skel: Seq<char>, chunks: Seq<Chunk>)
    requires
        forall|i: int|
            0 <= i < chunks.len() ==> #[trigger] replace_seq(
                skel,
                "{filename}"@,
                chunks[i].encoded_file@,
            ).len() > 0,
    ensures
        file_list(skel, chunks.take(0)) == Seq::<char>::empty(),
        file_list(skel, chunks.take(chunks.len() as int)) == file_list(skel, chunks),
        forall|i: int|
            0 <= i < chunks.len() ==> #[trigger] file_list(skel, chunks.take(i + 1)) == file_list(
                skel,
                chunks.take(i),
            ) + (if i == 0 {
                Seq::<char>::empty()
            } else {
                " +"@
            }) + replace_seq(skel, "{filename}"@, chunks[i].encoded_file@),
{
    assert(chunks.take(0) =~= Seq::<Chunk>::empty());
    assert(chunks.take(chunks.len() as int) =~= chunks);
    assert forall|i: int| 0 <= i < chunks.len() implies #[trigger] file_list(skel, chunks.take(i + 1))
        == file_list(skel, chunks.take(i)) + (if i == 0 {
        Seq::<char>::empty()
    } else {
        " +"@
    }) + replace_seq(skel, "{filename}"@, chunks[i].encoded_file@) by {
        let t = chunks.take(i + 1);
        assert(t.drop_last() =~= chunks.take(i));
        assert(t.last() == chunks[i]);
        let item = replace_seq(skel, "{filename}"@, chunks[i].encoded_file@);
        if i == 0 {
            assert(chunks.take(0) =~= Seq::<Chunk>::empty());
            assert(Seq::<char>::empty() + item =~= item);
        } else {
            let u = chunks.take(i);
            assert(u.drop_last() =~= chunks.take(i - 1));
            assert(u.last() == chunks[i - 1]);
            let prev = replace_seq(skel, "{filename}"@, chunks[i - 1].encoded_file@);
            assert(prev.len() > 0);
            assert(file_list(skel, u).len() >= prev.len());
        }
    }
}

/// The timing lines grow by exactly one line per chunk of the project, in
/// project order and whatever the chunk's state: the line of chunk `i` is
/// the skeleton with its first and last frame filled in.
pub proof fn lemma_timestamp_lines_one_per_chunk(skel: Seq<char>, chunks: Seq<Chunk>)
    ensures
        timestamp_lines(skel, chunks.take(0)) == Seq::<char>::empty(),
        timestamp_lines(skel, chunks.take(chunks.len() as int)) == timestamp_lines(skel, chunks),
        forall|i: int|
            0 <= i < chunks.len() ==> #[trigger] timestamp_lines(skel, chunks.take(i + 1))
                == timestamp_lines(skel, chunks.take(i)) + replace_seq(
                replace_seq(skel, "{sf}"@, decimal(chunks[i].start_frame as nat)),
                "{ef}"@,
                decimal(chunks[i].end_frame as nat),
            ),
{
    assert(chunks.take(0) =~= Seq::<Chunk>::empty());
    assert(chunks.take(chunks.len() as int) =~= chunks);
    assert forall|i: int| 0 <= i < chunks.len() implies #[trigger] timestamp_lines(
        skel,
        chunks.take(i + 1),
    ) == timestamp_lines(skel, chunks.take(i)) + replace_seq(
        replace_seq(skel, "{sf}"@, decimal(chunks[i].start_frame as nat)),
        "{ef}"@,
        decimal(chunks[i].end_frame as nat),
    ) by {
        let t = chunks.take(i + 1);
        assert(t.drop_last() =~= chunks.take(i));
        assert(t.last() == chunks[i]);
    }
}

/// Every entry of the join list names a file under the encoded-chunk
/// directory: it holds the `/` of the path, so it is never empty.
pub proof fn lemma_entry_has_separator(enc: Seq<char>, file: Seq<char>)
    ensures
        replace_seq(encoded_path_skeleton(enc), "{filename}"@, file).contains('/'),
{
    reveal_strlit("{enc_path}/{filename}");
    reveal_strlit("{enc_path}");
    reveal_strlit("{filename}");
    let s = "{enc_path}/{filename}"@;
    assert(s[10] == '/');
    assert(!"{enc_path}"@.contains('/'));
    lemma_replace_keeps_char(s, "{enc_path}"@, enc, 0, 10);
    let skel = encoded_path_skeleton(enc);
    let j = choose|j: int| 0 <= j < skel.len() && skel[j] == '/';
    assert(!"{filename}"@.contains('/'));
    lemma_replace_keeps_char(skel, "{filename}"@, file, 0, j);
}

/// The join list of a project has exactly one entry per chunk, in project
/// order and whatever the chunks' states: the entry of chunk `i` is
/// `<encoded_chunks>/<encoded_file>` (the skeleton filled in), preceded by
/// ` +` unless it is the first.
pub proof fn lemma_join_list_one_entry_per_chunk(enc: Seq<char>, chunks: Seq<Chunk>)
    ensures
        file_list(encoded_path_skeleton(enc), chunks.take(0)) == Seq::<char>::empty(),
        file_list(encoded_path_skeleton(enc), chunks.take(chunks.len() as int)) == file_list(
            encoded_path_skeleton(enc),
            chunks,
        ),
        forall|i: int|
            0 <= i < chunks.len() ==> #[trigger] file_list(
                encoded_path_skeleton(enc),
                chunks.take(i + 1),
            ) == file_list(encoded_path_skeleton(enc), chunks.take(i)) + (if i == 0 {
                Seq::<char>::empty()
            } else {
                " +"@
            }) + replace_seq(encoded_path_skeleton(enc), "{filename}"@, chunks[i].encoded_file@),
{
    let skel = encoded_path_skeleton(enc);
    assert forall|i: int| 0 <= i < chunks.len() implies #[trigger] replace_seq(
        skel,
        "{filename}"@,
        chunks[i].encoded_file@,
    ).len() > 0 by {
        lemma_entry_has_separator(enc, chunks[i].encoded_file@);
    }
    lemma_file_list_one_entry_per_chunk(skel, chunks);
}

} // verus!
