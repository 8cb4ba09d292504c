//! The jobs of the pipeline and the batch scripts they run.

pub mod split;
pub mod encode;
pub mod mediainfo;
pub mod merge;

use vstd::prelude::*;
use crate::text::{
    replace_all, replace_seq, replaced_from, occurs_at, lemma_replaced_skip,
    lemma_no_occurrence_without_first_char,
};
use crate::project::{Chunk, Project};
use crate::commands::split::{Split, fresh_split};
use crate::commands::encode::{EncodePass1, EncodePass2, fresh_pass1, fresh_pass2};
use crate::commands::mediainfo::{MediaInfo, fresh_mediainfo};
use crate::commands::merge::Merge;

verus! {

/// What a finished job reports of the chunk it worked on.
#[derive(Debug, Clone)]
pub struct JobInfo {
    pub chunk_num: usize,
    pub file_name: String,
    pub start_frame: usize,
    pub end_frame: usize,
}

/// A batch script to write before a job runs: where it goes and what it holds.
#[derive(Debug)]
pub struct BatchFile {
    pub path: String,
    pub contents: String,
}

/// The placeholder `{name}` that a template holds for the argument `name`.
pub open spec fn placeholder(name: Seq<char>) -> Seq<char> {
    seq!['{'] + name + seq!['}']
}

/// `template` with the placeholder of each argument, first to last, replaced
/// by its value.
pub open spec fn fill_template(template: Seq<char>, args: Seq<(Seq<char>, Seq<char>)>) -> Seq<char>
    decreases args.len(),
{
    if args.len() == 0 {
        template
    } else {
        replace_seq(
            fill_template(template, args.drop_last()),
            placeholder(args.last().0),
            args.last().1,
        )
    }
}

/// The batch script skeleton; `{command}` stands for the command it runs.
pub const BATCH_BASE_STRING: &'static str = "@echo off\n\
                                        {command}\n\
                                        exit";

/// A batch script that runs `command` with echo off, then exits.
pub open spec fn batch_script(command: Seq<char>) -> Seq<char> {
    "@echo off\n"@ + command + "\nexit"@
}

/// The arguments of a batch script, as names and values.
pub open spec fn args_view(args: Seq<(&str, String)>) -> Seq<(Seq<char>, Seq<char>)> {
    args.map_values(|a: (&str, String)| (a.0@, a.1@))
}

/// The batch script that runs `command_template` with its placeholders filled
/// in from `arguments`.
pub fn build_batch_contents(command_template: &str, arguments: Vec<(&str, String)>) -> (res: String)
    ensures
        res@ == batch_script(fill_template(command_template@, args_view(arguments@))),
{
    let ghost args = args_view(arguments@);
    let mut filled = String::from_str(command_template);
    let mut i: usize = 0;
    while i < arguments.len()
        invariant
            i <= arguments@.len(),
            args == args_view(arguments@),
            filled@ == fill_template(command_template@, args.take(i as int)),
        decreases arguments@.len() - i,
    {
        proof {
            reveal_strlit("{");
            reveal_strlit("}");
        }
        let open = String::from_str("{");
        assert(open@ =~= seq!['{']);
        let pat = open.concat(arguments[i].0).concat("}");
        assert("}"@ =~= seq!['}']);
        assert(args[i as int] == (arguments@[i as int].0@, arguments@[i as int].1@));
        assert(pat@ =~= placeholder(args[i as int].0));
        let next = replace_all(filled.as_str(), pat.as_str(), arguments[i].1.as_str());
        assert(args.take(i + 1).drop_last() =~= args.take(i as int));
        filled = next;
        i = i + 1;
    }
    assert(args.take(arguments@.len() as int) =~= args);
    proof {
        reveal_strlit("{command}");
    }
    let res = replace_all(BATCH_BASE_STRING, "{command}", filled.as_str());
    proof {
        lemma_base_string_wraps(filled@);
    }
    res
}

/// Filling the skeleton's one placeholder with `command` gives the script
/// that runs `command`: `@echo off`, a line break, the command, a line
/// break, `exit`.
pub proof fn lemma_base_string_wraps(command: Seq<char>)
    ensures
        replace_seq(BATCH_BASE_STRING@, "{command}"@, command) == batch_script(command),
{
    reveal_strlit("@echo off\n{command}\nexit");
    reveal_strlit("{command}");
    reveal_strlit("@echo off\n");
    reveal_strlit("\nexit");
    let s = BATCH_BASE_STRING@;
    let pat = "{command}"@;
    assert(s == "@echo off\n{command}\nexit"@);
    assert(s.len() == 24);
    assert(pat.len() == 9);
    assert(pat[0] == '{');
    assert(forall|k: int| 0 <= k < 10 ==> s[k] != '{');
    assert(forall|k: int| 19 <= k < 24 ==> s[k] != '{');
    lemma_no_occurrence_without_first_char(s, pat, 0, 10);
    lemma_no_occurrence_without_first_char(s, pat, 19, 24);
    lemma_replaced_skip(s, pat, command, 0, 10);
    assert(s.subrange(10, 19) =~= pat);
    assert(occurs_at(s, pat, 10));
    assert(replaced_from(s, pat, command, 10) == command + replaced_from(s, pat, command, 19));
    lemma_replaced_skip(s, pat, command, 19, 24);
    assert(replaced_from(s, pat, command, 24) =~= Seq::<char>::empty());
    assert(s.subrange(0, 10) =~= "@echo off\n"@);
    assert(s.subrange(19, 24) =~= "\nexit"@);
    assert(replace_seq(s, pat, command) =~= batch_script(command));
}

/// The job that cuts `chunk` out of the source video.
pub fn make_split(project: &Project, chunk: Chunk) -> (res: Split)
    ensures
        fresh_split(res, *project, chunk),
{
    Split::new(project, chunk)
}

/// The first encoding pass over `chunk`.
pub fn make_pass1(project: &Project, chunk: Chunk) -> (res: EncodePass1)
    ensures
        fresh_pass1(res, *project, chunk),
{
    EncodePass1::new(project, chunk)
}

/// The second encoding pass over `chunk`.
pub fn make_pass2(project: &Project, chunk: Chunk) -> (res: EncodePass2)
    ensures
        fresh_pass2(res, *project, chunk),
{
    EncodePass2::new(project, chunk)
}

/// The inspection of `target`.
pub fn make_mediainfo(project: &Project, target: String) -> (res: MediaInfo)
    ensures
        fresh_mediainfo(res, *project, target),
{
    MediaInfo::new(project, target)
}

/// The joining of the encoded chunks of `project`.
pub fn make_merge(project: &Project) -> (res: Merge<'_>)
    ensures
        res.timestamp_file@.len() == 0,
        res.cleanup_files@.len() == 0,
        res.project == project,
{
    Merge::new(project)
}

/// Filling a template takes the arguments in order: after the first `i + 1`
/// arguments, the text is the text after the first `i`, with every `{name}`
/// of argument `i` replaced by its value.
pub proof fn lemma_fill_template_in_order(template: Seq<char>, args: Seq<(Seq<char>, Seq<char>)>)
    ensures
        fill_template(template, args.take(0)) == template,
        fill_template(template, args.take(args.len() as int)) == fill_template(template, args),
        forall|i: int|
            0 <= i < args.len() ==> #[trigger] fill_template(template, args.take(i + 1))
                == replace_seq(
                fill_template(template, args.take(i)),
                seq!['{'] + args[i].0 + seq!['}'],
                args[i].1,
            ),
{
    assert(args.take(0) =~= Seq::<(Seq<char>, Seq<char>)>::empty());
    assert(args.take(args.len() as int) =~= args);
    assert forall|i: int| 0 <= i < args.len() implies #[trigger] fill_template(
        template,
        args.take(i + 1),
    ) == replace_seq(
        fill_template(template, args.take(i)),
        seq!['{'] + args[i].0 + seq!['}'],
        args[i].1,
    ) by {
        assert(args.take(i + 1).drop_last() =~= args.take(i));
        assert(args.take(i + 1).last() == args[i]);
    }
}

} // verus!
