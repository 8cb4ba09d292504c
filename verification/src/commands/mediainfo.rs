//! The job that inspects a media file and reports on it as JSON.

use vstd::prelude::*;
use crate::text::{replace_all, replace_seq, lemma_replace_leading};
use crate::project::{Dirs, Project};
use crate::commands::{BatchFile, batch_script, fill_template, build_batch_contents, args_view};

verus! {

/// The inspection command; it writes its report next to the scripts.
pub const MEDIAINFO_BASE_COMMAND: &'static str = "{tools_path}\\mediainfo\\MediaInfo.exe \
                                             -f \
                                             --Output=JSON \
                                             --LogFile={tmp_path}\\{target_file}.json \
                                             {target_file}";

/// A media inspection job.
#[derive(Debug)]
pub struct MediaInfo {
    pub target_file: String,
    pub cleanup_files: Vec<String>,
    pub video_source: String,
    pub dirs: Dirs,
}

/// `job` inspects `target` for `project` and has not been prepared.
pub open spec fn fresh_mediainfo(job: MediaInfo, project: Project, target: String) -> bool {
    &&& job.target_file == target
    &&& job.cleanup_files@.len() == 0
    &&& job.video_source == project.file_name
    &&& job.dirs == project.paths
}

/// Where the inspection script goes.
pub open spec fn mediainfo_batch_path(tmp: Seq<char>) -> Seq<char> {
    replace_seq("{tmp_dir}\\mediainfo.bat"@, "{tmp_dir}"@, tmp)
}

/// Where the report on `target` goes.
pub open spec fn mediainfo_report_path(tmp: Seq<char>, target: Seq<char>) -> Seq<char> {
    replace_seq(
        replace_seq("{tmp_dir}\\{target_file}.json"@, "{tmp_dir}"@, tmp),
        "{target_file}"@,
        target,
    )
}

/// The arguments of the inspection command.
pub open spec fn mediainfo_args(dirs: Dirs, target: Seq<char>) -> Seq<(Seq<char>, Seq<char>)> {
    seq![("tools_path"@, dirs.tools@), ("tmp_path"@, dirs.tmp@), ("target_file"@, target)]
}

impl MediaInfo {
    /// An inspection of `target` for `project`, with nothing to clean up yet.
    pub fn new(project: &Project, target: String) -> (res: MediaInfo)
        ensures
            fresh_mediainfo(res, *project, target),
    {
        MediaInfo {
            target_file: target,
            cleanup_files: Vec::new(),
            video_source: project.file_name.clone(),
            dirs: project.paths.clone(),
        }
    }

    /// Builds the inspection script.
    pub fn build_batch_file(&self) -> (res: BatchFile)
        ensures
            res.path@ == mediainfo_batch_path(self.dirs.tmp@),
            res.contents@ == batch_script(
                fill_template(MEDIAINFO_BASE_COMMAND@, mediainfo_args(self.dirs, self.target_file@)),
            ),
    {
        proof {
            reveal_strlit("{tmp_dir}");
        }
        let mut args: Vec<(&str, String)> = Vec::new();
        args.push(("tools_path", self.dirs.tools.clone()));
        args.push(("tmp_path", self.dirs.tmp.clone()));
        args.push(("target_file", self.target_file.clone()));
        assert(args_view(args@) =~= mediainfo_args(self.dirs, self.target_file@));
        let contents = build_batch_contents(MEDIAINFO_BASE_COMMAND, args);
        let path = replace_all("{tmp_dir}\\mediainfo.bat", "{tmp_dir}", self.dirs.tmp.as_str());
        BatchFile { path, contents }
    }

    /// Builds the inspection script and records it and the report for
    /// removal once the job is over. The caller writes the script and runs
    /// it.
    pub fn prepare(&mut self) -> (res: BatchFile)
        ensures
            final(self).target_file == old(self).target_file,
            final(self).video_source == old(self).video_source,
            final(self).dirs == old(self).dirs,
            final(self).cleanup_files@.len() == old(self).cleanup_files@.len() + 2,
            final(self).cleanup_files@.take(old(self).cleanup_files@.len() as int)
                == old(self).cleanup_files@,
            final(self).cleanup_files@[old(self).cleanup_files@.len() as int] == res.path,
            final(self).cleanup_files@[old(self).cleanup_files@.len() + 1int]@
                == mediainfo_report_path(old(self).dirs.tmp@, old(self).target_file@),
            res.path@ == mediainfo_batch_path(old(self).dirs.tmp@),
            res.contents@ == batch_script(
                fill_template(
                    MEDIAINFO_BASE_COMMAND@,
                    mediainfo_args(old(self).dirs, old(self).target_file@),
                ),
            ),
    {
        proof {
            reveal_strlit("{tmp_dir}");
            reveal_strlit("{target_file}");
        }
        let batch = self.build_batch_file();
        self.cleanup_files.push(batch.path.clone());
        let with_dir = replace_all("{tmp_dir}\\{target_file}.json", "{tmp_dir}", self.dirs.tmp.as_str());
        let report = replace_all(with_dir.as_str(), "{target_file}", self.target_file.as_str());
        self.cleanup_files.push(report);
        assert(self.cleanup_files@.take(old(self).cleanup_files@.len() as int)
            =~= old(self).cleanup_files@);
        batch
    }
}

/// The inspection script goes to the temp directory, whatever it is called.
pub proof fn lemma_mediainfo_batch_path(tmp: Seq<char>)
    ensures
        mediainfo_batch_path(tmp) == tmp + "\\mediainfo.bat"@,
{
    reveal_strlit("{tmp_dir}");
    reveal_strlit("{tmp_dir}\\mediainfo.bat");
    reveal_strlit("\\mediainfo.bat");
    assert("{tmp_dir}\\mediainfo.bat"@ =~= "{tmp_dir}"@ + "\\mediainfo.bat"@);
    lemma_replace_leading("{tmp_dir}"@, "\\mediainfo.bat"@, tmp);
}

} // verus!
