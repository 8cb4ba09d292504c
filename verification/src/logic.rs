//! The decisions of the top-level work loop: which chunks to work on, which
//! job each needs next, and what follows when a job hands back its chunk.
//! Running the jobs, saving the project and joining the result are the
//! caller's part.

use vstd::prelude::*;
use crate::project::{
    Chunk, EncodeState, Project, is_done_state, scene_index,
};
use crate::commands::{make_pass1, make_pass2, make_split};
use crate::commands::split::{Split, fresh_split};
use crate::commands::encode::{EncodePass1, EncodePass2, fresh_pass1, fresh_pass2};

verus! {

broadcast use vstd::seq_lib::group_filter_ensures;

/// The job that a chunk needs next.
#[derive(Debug)]
pub enum NextCommand {
    Split(Split),
    Pass1(EncodePass1),
    Pass2(EncodePass2),
}

/// What follows when a job hands back its chunk.
#[derive(Debug)]
pub enum ResultStep {
    /// The chunk needs another job: this one.
    SameChunk(NextCommand),
    /// The chunk is done; this chunk joins the work list with this job.
    NextChunk(Chunk, NextCommand),
    /// The chunk is done and no other chunk is waiting.
    NoMoreChunks,
}

/// A chunk in this state still needs a job.
pub open spec fn is_workable(s: EncodeState) -> bool {
    !is_done_state(s)
}

/// `cmd` is the job that `chunk` of `project` needs next: a split when it
/// has not started, the first pass once it is split, the second pass once
/// the first is done.
pub open spec fn is_next_command(project: Project, chunk: Chunk, cmd: NextCommand) -> bool {
    match chunk.state {
        EncodeState::NOT_STARTED => cmd matches NextCommand::Split(j) && fresh_split(
            j,
            project,
            chunk,
        ),
        EncodeState::SPLIT => cmd matches NextCommand::Pass1(j) && fresh_pass1(j, project, chunk),
        EncodeState::PASS_1 => cmd matches NextCommand::Pass2(j) && fresh_pass2(j, project, chunk),
        _ => false,
    }
}

/// Is a chunk of scene `n` in `work_list`?
pub open spec fn in_work_list(work_list: Seq<Chunk>, n: usize) -> bool {
    exists|i: int| 0 <= i < work_list.len() && work_list[i].scene_number == n
}

/// `c` still needs a job and no chunk of its scene is in `work_list`.
pub open spec fn is_candidate(work_list: Seq<Chunk>, c: Chunk) -> bool {
    is_workable(c.state) && !in_work_list(work_list, c.scene_number)
}

/// The chunks of `chunks` that still need a job and are not in `work_list`,
/// in project order.
pub open spec fn candidates(chunks: Seq<Chunk>, work_list: Seq<Chunk>) -> Seq<Chunk> {
    chunks.filter(|c: Chunk| is_candidate(work_list, c))
}

/// `work_list` without the chunks of scene `n`.
pub open spec fn without_scene(work_list: Seq<Chunk>, n: usize) -> Seq<Chunk> {
    work_list.filter(|c: Chunk| c.scene_number != n)
}

/// `new` is `old` with its chunks replaced by `chunks`.
pub open spec fn with_chunks(old: Project, new: Project, chunks: Seq<Chunk>) -> bool {
    &&& new.file_name == old.file_name
    &&& new.paths == old.paths
    &&& new.container_info == old.container_info
    &&& new.videostream_info == old.videostream_info
    &&& new.chunks@ == chunks
}

/// `c` is `old` marked complete.
pub open spec fn completed(old: Chunk, c: Chunk) -> bool {
    &&& c.scene_number == old.scene_number
    &&& c.start_frame == old.start_frame
    &&& c.end_frame == old.end_frame
    &&& c.length_frames == old.length_frames
    &&& c.state == EncodeState::COMPLETE
    &&& c.raw_file == old.raw_file
    &&& c.firstpass_file == old.firstpass_file
    &&& c.encoded_file == old.encoded_file
}

/// What a search for `n` chunks to work on gives: the first `n` candidates,
/// or none when there are none. Asked for no chunk, the search still takes
/// every candidate when the first chunk of the project is one.
pub open spec fn found_chunks(chunks: Seq<Chunk>, work_list: Seq<Chunk>, n: usize) -> Option<
    Seq<Chunk>,
> {
    let c = candidates(chunks, work_list);
    if n > 0 {
        if c.len() == 0 {
            None
        } else {
            Some(c.take(if n < c.len() { n as int } else { c.len() as int }))
        }
    } else if chunks.len() > 0 && is_workable(chunks[0].state) && !in_work_list(
        work_list,
        chunks[0].scene_number,
    ) {
        Some(c)
    } else {
        None
    }
}

/// The number of chunks in `chunks` that need no more work.
pub open spec fn count_done(chunks: Seq<Chunk>) -> nat
    decreases chunks.len(),
{
    if chunks.len() == 0 {
        0
    } else {
        count_done(chunks.drop_last()) + if is_done_state(chunks.last().state) {
            1nat
        } else {
            0nat
        }
    }
}

/// The work loop's state: the project, and copies of the chunks that have a
/// job under way.
pub struct Machine {
    project: Project,
    work_list: Vec<Chunk>,
}

impl Machine {
    /// The project.
    pub closed spec fn project_view(&self) -> Project {
        self.project
    }

    /// The chunks that have a job under way.
    pub closed spec fn work_list_view(&self) -> Seq<Chunk> {
        self.work_list@
    }

    /// Every chunk in the work list still needed a job when it was added.
    pub open spec fn wf(&self) -> bool {
        forall|i: int|
            0 <= i < self.work_list_view().len() ==> is_workable(
                #[trigger] self.work_list_view()[i].state,
            )
    }

    /// A machine over `project`, with nothing under way.
    pub fn new(project: Project) -> (res: Machine)
        ensures
            res.project_view() == project,
            res.work_list_view().len() == 0,
            res.wf(),
    {
        Machine { project, work_list: Vec::new() }
    }

    /// The project.
    pub fn project(&self) -> (res: &Project)
        ensures
            *res == self.project_view(),
    {
        &self.project
    }

    /// The chunks that have a job under way.
    pub fn work_list(&self) -> (res: &Vec<Chunk>)
        ensures
            res@ == self.work_list_view(),
    {
        &self.work_list
    }

    /// Is any chunk under way?
    pub fn has_work(&self) -> (res: bool)
        ensures
            res == (self.work_list_view().len() > 0),
    {
        self.work_list.len() > 0
    }

    /// The job that `chunk` needs next, if it needs one.
    pub fn make_next_command(&self, chunk: &Chunk) -> (res: Option<NextCommand>)
        ensures
            is_workable(chunk.state) <==> res.is_some(),
            res matches Some(cmd) ==> is_next_command(self.project_view(), *chunk, cmd),
    {
        match chunk.state {
            EncodeState::NOT_STARTED => Some(NextCommand::Split(make_split(&self.project, chunk.clone()))),
            EncodeState::SPLIT => Some(NextCommand::Pass1(make_pass1(&self.project, chunk.clone()))),
            EncodeState::PASS_1 => Some(NextCommand::Pass2(make_pass2(&self.project, chunk.clone()))),
            _ => None,
        }
    }

    /// Is a chunk of the scene of `match_chunk` under way?
    pub fn find_chunk_in_work_list(&self, match_chunk: &Chunk) -> (res: bool)
        ensures
            res == in_work_list(self.work_list_view(), match_chunk.scene_number),
    {
        let mut i: usize = 0;
        while i < self.work_list.len()
            invariant
                i <= self.work_list@.len(),
                forall|j: int|
                    0 <= j < i ==> self.work_list@[j].scene_number != match_chunk.scene_number,
            decreases self.work_list@.len() - i,
        {
            if self.work_list[i].scene_number == match_chunk.scene_number {
                return true;
            }
            i = i + 1;
        }
        false
    }

    /// Up to `chunks_needed` chunks to start work on: those that still need
    /// a job and are not under way, first in project order.
    pub fn find_next_x_workable_chunks(&self, chunks_needed: usize) -> (res: Option<Vec<Chunk>>)
        ensures
            match res {
                Some(v) => found_chunks(
                    self.project_view().chunks@,
                    self.work_list_view(),
                    chunks_needed,
                ) == Some(v@),
                None => found_chunks(
                    self.project_view().chunks@,
                    self.work_list_view(),
                    chunks_needed,
                ) is None,
            },
    {
        let ghost chunks = self.project.chunks@;
        let ghost wl = self.work_list@;
        let ghost pred = |c: Chunk| is_candidate(wl, c);
        let mut found: Vec<Chunk> = Vec::new();
        let mut i: usize = 0;
        let mut stop = false;
        while i < self.project.chunks.len() && !stop
            invariant
                chunks == self.project.chunks@,
                wl == self.work_list@,
                pred == (|c: Chunk| is_candidate(wl, c)),
                i <= chunks.len(),
                found@ == chunks.take(i as int).filter(pred),
                chunks_needed > 0 ==> found@.len() <= chunks_needed,
                stop ==> found@.len() == chunks_needed && i > 0,
                !stop && i > 0 ==> found@.len() != chunks_needed,
                chunks_needed == 0 && i > 0 ==> (stop <==> !is_candidate(wl, chunks[0])),
            decreases chunks.len() - i,
        {
            let chunk = &self.project.chunks[i];
            proof {
                assert(chunks.take(i + 1) =~= chunks.take(i as int).push(chunks[i as int]));
                chunks.take(i as int).lemma_filter_push(chunks[i as int], pred);
            }
            if chunk.state != EncodeState::COMPLETE && chunk.state != EncodeState::PASS_2
                && !self.find_chunk_in_work_list(chunk) {
                found.push(chunk.clone());
            }
            if found.len() == chunks_needed {
                stop = true;
            }
            i = i + 1;
        }
        proof {
            let c = chunks.filter(pred);
            assert(chunks =~= chunks.take(i as int) + chunks.skip(i as int));
            Seq::filter_distributes_over_add(chunks.take(i as int), chunks.skip(i as int), pred);
            assert(c == found@ + chunks.skip(i as int).filter(pred));
            if !stop {
                assert(chunks.take(i as int) =~= chunks);
                assert(chunks.skip(i as int) =~= Seq::<Chunk>::empty());
                assert(chunks.skip(i as int).filter(pred) =~= Seq::<Chunk>::empty()) by {
                    reveal(Seq::filter);
                }
                assert(c =~= found@);
            } else if chunks_needed > 0 {
                assert(c.take(chunks_needed as int) =~= found@);
            }
            if chunks_needed == 0 && chunks.len() > 0 && !stop {
                assert(i > 0);
            }
        }
        if found.len() == 0 {
            None
        } else {
            Some(found)
        }
    }

    /// Drops the chunks of scene `n` from the work list.
    fn remove_from_work_list(&mut self, n: usize)
        requires
            old(self).wf(),
        ensures
            final(self).wf(),
            final(self).project_view() == old(self).project_view(),
            final(self).work_list_view() == without_scene(old(self).work_list_view(), n),
    {
        let ghost wl = self.work_list@;
        let ghost pred = |c: Chunk| c.scene_number != n;
        let mut kept: Vec<Chunk> = Vec::new();
        let mut i: usize = 0;
        while i < self.work_list.len()
            invariant
                wl == self.work_list@,
                pred == (|c: Chunk| c.scene_number != n),
                i <= wl.len(),
                kept@ == wl.take(i as int).filter(pred),
            decreases wl.len() - i,
        {
            proof {
                assert(wl.take(i + 1) =~= wl.take(i as int).push(wl[i as int]));
                wl.take(i as int).lemma_filter_push(wl[i as int], pred);
            }
            if self.work_list[i].scene_number != n {
                kept.push(self.work_list[i].clone());
            }
            i = i + 1;
        }
        assert(wl.take(wl.len() as int) =~= wl);
        self.work_list = kept;
        assert forall|k: int| 0 <= k < self.work_list@.len() implies is_workable(
            #[trigger] self.work_list@[k].state,
        ) by {
            let x = self.work_list@[k];
            assert(wl.filter(pred)[k] == x);
            assert(wl.filter(pred).contains(x));
            wl.lemma_filter_contains_rev(pred, x);
            let j = choose|j: int| 0 <= j < wl.len() && wl[j] == x;
            assert(is_workable(old(self).work_list_view()[j].state));
        }
    }

    /// Opens the work: takes up to `concurrent_chunks` chunks to work on into
    /// the work list and gives the job that each chunk of the list needs
    /// next, in list order.
    pub fn start_work(&mut self, concurrent_chunks: usize) -> (res: Vec<NextCommand>)
        requires
            old(self).wf(),
        ensures
            final(self).wf(),
            final(self).project_view() == old(self).project_view(),
            final(self).work_list_view() == old(self).work_list_view() + match found_chunks(
                old(self).project_view().chunks@,
                old(self).work_list_view(),
                concurrent_chunks,
            ) {
                Some(s) => s,
                None => Seq::empty(),
            },
            res@.len() == final(self).work_list_view().len(),
            forall|i: int|
                0 <= i < res@.len() ==> is_next_command(
                    final(self).project_view(),
                    final(self).work_list_view()[i],
                    #[trigger] res@[i],
                ),
    {
        let ghost wl0 = self.work_list@;
        let ghost pred = |c: Chunk| is_candidate(wl0, c);
        match self.find_next_x_workable_chunks(concurrent_chunks) {
            Some(mut s) => {
                proof {
                    assert forall|k: int| 0 <= k < s@.len() implies is_workable(
                        #[trigger] s@[k].state,
                    ) by {
                        let c = candidates(self.project.chunks@, wl0);
                        assert(c == self.project.chunks@.filter(pred));
                        if concurrent_chunks > 0 {
                            assert(s@[k] == c[k]);
                        }
                        assert(pred(c[k]));
                    }
                }
                self.work_list.append(&mut s);
            },
            None => {},
        }
        let mut cmds: Vec<NextCommand> = Vec::new();
        let mut i: usize = 0;
        while i < self.work_list.len()
            invariant
                self.wf(),
                i <= self.work_list@.len(),
                cmds@.len() == i,
                forall|k: int|
                    0 <= k < i ==> is_next_command(
                        self.project_view(),
                        self.work_list_view()[k],
                        #[trigger] cmds@[k],
                    ),
            decreases self.work_list@.len() - i,
        {
            assert(is_workable(self.work_list_view()[i as int].state));
            let cmd = self.make_next_command(&self.work_list[i]);
            match cmd {
                Some(c) => cmds.push(c),
                None => {},
            }
            i = i + 1;
        }
        cmds
    }

    /// Takes in the chunk that a finished job hands back: records it in the
    /// project, then gives the chunk's next job, or, once the chunk is done,
    /// takes it off the work list and starts on the next chunk waiting.
    pub fn on_result(&mut self, result: Chunk) -> (res: ResultStep)
        requires
            old(self).wf(),
            scene_index(old(self).project_view().chunks@, result.scene_number) >= 0,
        ensures
            final(self).wf(),
            with_chunks(
                old(self).project_view(),
                final(self).project_view(),
                old(self).project_view().chunks@.update(
                    scene_index(old(self).project_view().chunks@, result.scene_number),
                    result,
                ),
            ),
            match res {
                ResultStep::SameChunk(cmd) => {
                    &&& is_workable(result.state)
                    &&& is_next_command(final(self).project_view(), result, cmd)
                    &&& final(self).work_list_view() == old(self).work_list_view()
                },
                ResultStep::NextChunk(c, cmd) => {
                    let kept = without_scene(old(self).work_list_view(), result.scene_number);
                    &&& !is_workable(result.state)
                    &&& candidates(final(self).project_view().chunks@, kept).len() > 0
                    &&& c == candidates(final(self).project_view().chunks@, kept)[0]
                    &&& final(self).work_list_view() == kept.push(c)
                    &&& is_next_command(final(self).project_view(), c, cmd)
                },
                ResultStep::NoMoreChunks => {
                    let kept = without_scene(old(self).work_list_view(), result.scene_number);
                    &&& !is_workable(result.state)
                    &&& candidates(final(self).project_view().chunks@, kept).len() == 0
                    &&& final(self).work_list_view() == kept
                },
            },
    {
        self.project.update_chunk(result.clone());
        match self.make_next_command(&result) {
            Some(cmd) => ResultStep::SameChunk(cmd),
            None => {
                self.remove_from_work_list(result.scene_number);
                let ghost kept = self.work_list@;
                let ghost pred = |c: Chunk| is_candidate(kept, c);
                match self.find_next_x_workable_chunks(1) {
                    Some(found) => {
                        let next = found[0].clone();
                        proof {
                            let c = candidates(self.project.chunks@, kept);
                            assert(c == self.project.chunks@.filter(pred));
                            assert(found@[0] == c[0]);
                            assert(pred(c[0]));
                        }
                        self.work_list.push(next.clone());
                        assert(self.work_list_view()[self.work_list@.len() - 1] == next);
                        match self.make_next_command(&next) {
                            Some(cmd) => ResultStep::NextChunk(next, cmd),
                            None => ResultStep::NoMoreChunks,
                        }
                    },
                    None => ResultStep::NoMoreChunks,
                }
            },
        }
    }

    /// Marks every chunk of the project complete, once the encoded chunks
    /// are joined.
    pub fn mark_chunks_complete(&mut self)
        requires
            old(self).wf(),
        ensures
            final(self).wf(),
            final(self).work_list_view() == old(self).work_list_view(),
            final(self).project_view().file_name == old(self).project_view().file_name,
            final(self).project_view().paths == old(self).project_view().paths,
            final(self).project_view().container_info == old(self).project_view().container_info,
            final(self).project_view().videostream_info
                == old(self).project_view().videostream_info,
            final(self).project_view().chunks@.len() == old(self).project_view().chunks@.len(),
            forall|i: int|
                0 <= i < old(self).project_view().chunks@.len() ==> completed(
                    old(self).project_view().chunks@[i],
                    #[trigger] final(self).project_view().chunks@[i],
                ),
    {
        let mut i: usize = 0;
        while i < self.project.chunks.len()
            invariant
                self.wf(),
                self.work_list == old(self).work_list,
                self.project.file_name == old(self).project.file_name,
                self.project.paths == old(self).project.paths,
                self.project.container_info == old(self).project.container_info,
                self.project.videostream_info == old(self).project.videostream_info,
                self.project.chunks@.len() == old(self).project.chunks@.len(),
                i <= self.project.chunks@.len(),
                forall|k: int|
                    0 <= k < i ==> completed(
                        old(self).project.chunks@[k],
                        #[trigger] self.project.chunks@[k],
                    ),
                forall|k: int|
                    i <= k < self.project.chunks@.len() ==> #[trigger] self.project.chunks@[k]
                        == old(self).project.chunks@[k],
            decreases self.project.chunks@.len() - i,
        {
            let mut chunk = self.project.chunks[i].clone();
            chunk.state = EncodeState::COMPLETE;
            self.project.chunks.set(i, chunk);
            i = i + 1;
        }
    }

    /// The numbers of chunks that need no more work and that still do.
    pub fn chunks_complete_incomplete(&self) -> (res: (usize, usize))
        ensures
            res.0 == count_done(self.project_view().chunks@),
            res.0 + res.1 == self.project_view().chunks@.len(),
    {
        let ghost chunks = self.project.chunks@;
        let mut done: usize = 0;
        let mut notdone: usize = 0;
        let mut i: usize = 0;
        while i < self.project.chunks.len()
            invariant
                chunks == self.project.chunks@,
                i <= chunks.len(),
                done == count_done(chunks.take(i as int)),
                done + notdone == i,
            decreases chunks.len() - i,
        {
            assert(chunks.take(i + 1).drop_last() =~= chunks.take(i as int));
            match self.project.chunks[i].state {
                EncodeState::COMPLETE => done = done + 1,
                EncodeState::PASS_2 => done = done + 1,
                _ => notdone = notdone + 1,
            }
            i = i + 1;
        }
        assert(chunks.take(chunks.len() as int) =~= chunks);
        (done, notdone)
    }
}

/// When every chunk needs no more work, the progress count reports them all
/// done and none left.
pub proof fn lemma_all_done_counted(chunks: Seq<Chunk>)
    requires
        forall|i: int| 0 <= i < chunks.len() ==> is_done_state(#[trigger] chunks[i].state),
    ensures
        count_done(chunks) == chunks.len(),
    decreases chunks.len(),
{
    if chunks.len() > 0 {
        let rest = chunks.drop_last();
        assert forall|i: int| 0 <= i < rest.len() implies is_done_state(#[trigger] rest[i].state) by {
            assert(rest[i] == chunks[i]);
        }
        lemma_all_done_counted(rest);
        assert(is_done_state(chunks[chunks.len() - 1].state));
    }
}

/// A search for chunks to work on only finds chunks that still need a job
/// and are not under way, never more than asked for (when asked for some),
/// and finds some whenever such a chunk exists and some are asked for.
pub proof fn lemma_found_chunks_are_workable(chunks: Seq<Chunk>, work_list: Seq<Chunk>, n: usize)
    ensures
        found_chunks(chunks, work_list, n) matches Some(v) ==> forall|k: int|
            0 <= k < v.len() ==> is_candidate(work_list, #[trigger] v[k]),
        found_chunks(chunks, work_list, n) matches Some(v) ==> v.len() > 0,
        n > 0 ==> (found_chunks(chunks, work_list, n) matches Some(v) ==> v.len() <= n),
        n > 0 ==> (found_chunks(chunks, work_list, n) is Some <==> candidates(chunks, work_list).len() > 0),
{
    let pred = |c: Chunk| is_candidate(work_list, c);
    let c = candidates(chunks, work_list);
    assert(c == chunks.filter(pred));
    if let Some(v) = found_chunks(chunks, work_list, n) {
        assert forall|k: int| 0 <= k < v.len() implies is_candidate(work_list, #[trigger] v[k]) by {
            assert(v[k] == c[k]);
            assert(pred(c[k]));
        }
        if n == 0 {
            assert(chunks[0] == chunks.take(1)[0]);
            assert(chunks =~= chunks.take(1) + chunks.skip(1));
            Seq::filter_distributes_over_add(chunks.take(1), chunks.skip(1), pred);
            Seq::<Chunk>::empty().lemma_filter_push(chunks[0], pred);
            assert(chunks.take(1) =~= Seq::<Chunk>::empty().push(chunks[0]));
            assert(Seq::<Chunk>::empty().filter(pred) =~= Seq::<Chunk>::empty()) by {
                reveal(Seq::filter);
            }
            assert(c.len() > 0);
        }
    }
}

/// Asked for `n > 0` chunks, the search takes exactly the first `min(n, k)`
/// chunks of the project, in project order, whose state is neither
/// `COMPLETE` nor `PASS_2` and whose scene has no chunk in the work list,
/// where `k` is how many such chunks there are; it takes none only when
/// there is no such chunk.
pub proof fn lemma_found_chunks_exact(chunks: Seq<Chunk>, work_list: Seq<Chunk>, n: usize)
    requires
        n > 0,
    ensures
        ({
            let waiting = chunks.filter(
                |x: Chunk|
                    x.state != EncodeState::COMPLETE && x.state != EncodeState::PASS_2 && !(exists|
                        i: int,
                    |
                        0 <= i < work_list.len() && work_list[i].scene_number == x.scene_number),
            );
            &&& waiting.len() == 0 ==> found_chunks(chunks, work_list, n) is None
            &&& waiting.len() > 0 ==> (found_chunks(chunks, work_list, n) matches Some(v) && v.len()
                == (if n < waiting.len() {
                n as int
            } else {
                waiting.len() as int
            }) && forall|j: int| 0 <= j < v.len() ==> v[j] == waiting[j])
        }),
{
    let p1 = |x: Chunk|
        x.state != EncodeState::COMPLETE && x.state != EncodeState::PASS_2 && !(exists|i: int|
            0 <= i < work_list.len() && work_list[i].scene_number == x.scene_number);
    let p2 = |c: Chunk| is_candidate(work_list, c);
    assert(p1 =~= p2);
    assert(chunks.filter(p1) == candidates(chunks, work_list));
}

/// The done count is the number of chunks whose state is `COMPLETE` or
/// `PASS_2`: a chunk in `NOT_STARTED`, `SPLIT` or `PASS_1` never adds to it.
pub proof fn lemma_count_done_counts_finished(chunks: Seq<Chunk>)
    ensures
        count_done(chunks) == chunks.filter(
            |c: Chunk| c.state == EncodeState::COMPLETE || c.state == EncodeState::PASS_2,
        ).len(),
        forall|c: Chunk|
            c.state == EncodeState::NOT_STARTED || c.state == EncodeState::SPLIT || c.state
                == EncodeState::PASS_1 ==> #[trigger] count_done(chunks.push(c)) == count_done(chunks),
        forall|c: Chunk|
            c.state == EncodeState::COMPLETE || c.state == EncodeState::PASS_2 ==> #[trigger] count_done(
                chunks.push(c),
            ) == count_done(chunks) + 1,
    decreases chunks.len(),
{
    let p = |c: Chunk| c.state == EncodeState::COMPLETE || c.state == EncodeState::PASS_2;
    if chunks.len() > 0 {
        let rest = chunks.drop_last();
        lemma_count_done_counts_finished(rest);
        assert(rest.push(chunks.last()) =~= chunks);
        rest.lemma_filter_push(chunks.last(), p);
    } else {
        assert(chunks.filter(p) =~= Seq::<Chunk>::empty()) by {
            reveal(Seq::filter);
        }
    }
    assert forall|c: Chunk| #[trigger] count_done(chunks.push(c)) == count_done(chunks) + if p(c) {
        1nat
    } else {
        0nat
    } by {
        assert(chunks.push(c).drop_last() =~= chunks);
    }
}

} // verus!
