//! The order in which a compaction writes and removes its files.
//!
//! The merged segment is durable before any segment that it stands for is removed,
//! so a compaction that is cut short may leave commands behind twice, but never
//! loses one.

use vstd::prelude::*;

use crate::compaction::{
    finish_compaction, obsolete, obsolete_segments, JournalCompactionResult,
};
use crate::packages::{
    write_immutable, written_once, ExistingFile, ProjectStore,
};
use crate::rank::ranked;
use crate::store::{is_safe_leaf, PackagePath, ProjectStoreError};
use crate::text::same_bytes;

verus! {

/// What is to be done next.
#[derive(Clone, Copy, Debug, PartialEq, Eq, Structural)]
pub enum CompactStep {
    /// Make the directory of the journal.
    MakeRoot,
    /// Read what is where the merged segment goes.
    Look,
    /// Create the merged segment, without replacing anything.
    Create,
    /// Remove the segment at this place among the obsolete ones.
    Remove(usize),
    /// Find out which segments there are now.
    Survey,
    /// Nothing: the compaction is complete.
    Finish,
    /// Nothing: the compaction failed.
    Stop,
}

/// What became of a step.
#[derive(Debug, PartialEq, Eq)]
pub enum CompactReply {
    /// What was found where the merged segment goes.
    Found(ExistingFile),
    /// The directory or the segment is there now, and durable.
    Written,
    /// Something was created at the place in the meantime: its content, or why it
    /// could not be read.
    Beaten(Result<Vec<u8>, String>),
    /// The segment is not there, or not any more.
    Removed,
    /// The segments that there are now.
    Surveyed(Vec<PackagePath>),
    /// The step could not be done.
    Failed { path: PackagePath, message: String },
}

/// A compaction on its way.
#[derive(Debug, PartialEq, Eq)]
pub struct CompactRun {
    /// Where the merged segment goes.
    pub path: PackagePath,
    pub bytes: Vec<u8>,
    /// The segments that it stands for.
    pub sources: Vec<PackagePath>,
    /// Those of them that are removed.
    pub obsolete: Vec<PackagePath>,
    pub frames: usize,
    pub step: CompactStep,
    pub active: Vec<PackagePath>,
    pub error: Option<ProjectStoreError>,
}

impl CompactRun {
    /// A step names an obsolete segment that there is, and a failure has a reason.
    pub open spec fn wf(self) -> bool {
        match self.step {
            CompactStep::Remove(i) => i < self.obsolete@.len(),
            CompactStep::Stop => self.error is Some,
            _ => true,
        }
    }

    /// A run that has done nothing yet.
    pub open spec fn is_new(self) -> bool {
        self.step == CompactStep::MakeRoot
    }

    /// The run after a failure.
    pub open spec fn stopped(self, error: ProjectStoreError) -> CompactRun {
        CompactRun { step: CompactStep::Stop, error: Some(error), ..self }
    }

    /// The run once the merged segment is durable and the first `i` obsolete
    /// segments are gone.
    pub open spec fn at(self, i: int) -> CompactRun {
        if i < self.obsolete@.len() {
            CompactRun { step: CompactStep::Remove(i as usize), ..self }
        } else {
            CompactRun { step: CompactStep::Survey, ..self }
        }
    }

    /// The run after a reply. A reply to another step changes nothing.
    pub open spec fn after(self, reply: CompactReply) -> CompactRun {
        match (self.step, reply) {
            (CompactStep::Survey, CompactReply::Surveyed(active)) => CompactRun {
                step: CompactStep::Finish,
                active,
                ..self
            },
            (CompactStep::Survey, _) | (CompactStep::Finish, _) | (CompactStep::Stop, _) => self,
            (_, CompactReply::Failed { path, message }) => self.stopped(
                ProjectStoreError::Io { path, message },
            ),
            (CompactStep::MakeRoot, CompactReply::Written) => CompactRun {
                step: CompactStep::Look,
                ..self
            },
            (CompactStep::Look, CompactReply::Found(existing)) => match written_once(
                self.path,
                existing,
                self.bytes@,
            ) {
                Ok(true) => CompactRun { step: CompactStep::Create, ..self },
                Ok(false) => self.at(0),
                Err(error) => self.stopped(error),
            },
            (CompactStep::Create, CompactReply::Written) => self.at(0),
            (CompactStep::Create, CompactReply::Beaten(content)) => match content {
                Err(message) => self.stopped(ProjectStoreError::Io { path: self.path, message }),
                Ok(there) => if there@ == self.bytes@ {
                    self.at(0)
                } else {
                    self.stopped(ProjectStoreError::ImmutablePayloadConflict(self.path))
                },
            },
            (CompactStep::Remove(i), CompactReply::Removed) => self.at(i + 1),
            _ => self,
        }
    }

    /// The run after a number of replies.
    pub open spec fn after_all(self, replies: Seq<CompactReply>) -> CompactRun
        decreases replies.len(),
    {
        if replies.len() == 0 {
            self
        } else {
            self.after_all(replies.drop_last()).after(replies.last())
        }
    }

    fn stop(self, error: ProjectStoreError) -> (r: CompactRun)
        ensures
            r == self.stopped(error),
            r.wf(),
    {
        let mut run = self;
        run.step = CompactStep::Stop;
        run.error = Some(error);
        run
    }

    fn proceed(self, i: usize) -> (r: CompactRun)
        ensures
            r == self.at(i as int),
            r.wf(),
    {
        let mut run = self;
        run.step = if i < run.obsolete.len() {
            CompactStep::Remove(i)
        } else {
            CompactStep::Survey
        };
        run
    }

    /// Takes the reply to the step of this run.
    pub fn reply(self, reply: CompactReply) -> (r: CompactRun)
        requires
            self.wf(),
        ensures
            r == self.after(reply),
            r.wf(),
    {
        let mut run = self;
        let count: usize = run.obsolete.len();
        assert(count == run.obsolete@.len());
        match (run.step, reply) {
            (CompactStep::Survey, CompactReply::Surveyed(active)) => {
                run.step = CompactStep::Finish;
                run.active = active;
                run
            },
            (CompactStep::Survey, _) | (CompactStep::Finish, _) | (CompactStep::Stop, _) => run,
            (_, CompactReply::Failed { path, message }) => run.stop(
                ProjectStoreError::Io { path, message },
            ),
            (CompactStep::MakeRoot, CompactReply::Written) => {
                run.step = CompactStep::Look;
                run
            },
            (CompactStep::Look, CompactReply::Found(existing)) => {
                match write_immutable(&run.path, &existing, &run.bytes) {
                    Ok(true) => {
                        run.step = CompactStep::Create;
                        run
                    },
                    Ok(false) => run.proceed(0),
                    Err(error) => run.stop(error),
                }
            },
            (CompactStep::Create, CompactReply::Written) => run.proceed(0),
            (CompactStep::Create, CompactReply::Beaten(content)) => {
                let path = run.path.clone();
                match content {
                    Err(message) => run.stop(ProjectStoreError::Io { path, message }),
                    Ok(there) => {
                        if same_bytes(there.as_slice(), run.bytes.as_slice()) {
                            run.proceed(0)
                        } else {
                            run.stop(ProjectStoreError::ImmutablePayloadConflict(path))
                        }
                    },
                }
            },
            (CompactStep::Remove(i), CompactReply::Removed) => run.proceed(i + 1),
            _ => run,
        }
    }
}

impl ProjectStore {
    /// Begins a compaction: the merged segment, under its name, for the segments
    /// that it stands for.
    pub fn begin_compaction(
        &self,
        name: &str,
        encoded: Result<Vec<u8>, String>,
        sources: Vec<PackagePath>,
        frames: usize,
    ) -> (r: Result<CompactRun, ProjectStoreError>)
        ensures
            match (encoded, is_safe_leaf(name@)) {
                (Err(message), _) => r == Err::<CompactRun, ProjectStoreError>(
                    ProjectStoreError::JournalEncode(message),
                ),
                (Ok(_), false) => r matches Err(ProjectStoreError::InvalidJournalName(text))
                    && text@ == name@,
                (Ok(bytes), true) => {
                    &&& r matches Ok(run)
                    &&& run.is_new()
                    &&& run.wf()
                    &&& self.is_segment_path(run.path, name@)
                    &&& run.bytes == bytes
                    &&& run.sources == sources
                    &&& run.obsolete@ == obsolete(
                        sources@,
                        run.path@,
                        sources@.len() as int,
                    )
                    &&& run.frames == frames
                    &&& run.active@.len() == 0
                    &&& run.error is None
                },
            },
    {
        let bytes = match encoded {
            Ok(bytes) => bytes,
            Err(message) => {
                return Err(ProjectStoreError::JournalEncode(message));
            },
        };
        let path = match self.journal_segment_path(name) {
            Ok(path) => path,
            Err(error) => {
                return Err(error);
            },
        };
        let obsolete = obsolete_segments(&sources, &path);
        Ok(
            CompactRun {
                path,
                bytes,
                sources,
                obsolete,
                frames,
                step: CompactStep::MakeRoot,
                active: Vec::new(),
                error: None,
            },
        )
    }

    /// What a compaction came to, once there is nothing left to do.
    pub fn conclude_compaction(&self, run: CompactRun) -> (r: Option<
        Result<JournalCompactionResult, ProjectStoreError>,
    >)
        requires
            run.wf(),
        ensures
            match run.step {
                CompactStep::Finish => {
                    &&& r matches Some(Ok(result))
                    &&& result.compacted_path == Some(run.path)
                    &&& result.source_segments == run.sources
                    &&& result.active_segments@ == ranked(run.active@)
                    &&& result.frames_preserved == run.frames
                    &&& result.skipped_reason is None
                },
                CompactStep::Stop => r == Some(
                    Err::<JournalCompactionResult, ProjectStoreError>(run.error->0),
                ),
                _ => r is None,
            },
    {
        match run.step {
            CompactStep::Finish => Some(
                Ok(finish_compaction(run.path, run.sources, run.active, run.frames)),
            ),
            CompactStep::Stop => match run.error {
                Some(error) => Some(Err(error)),
                None => vstd::pervasive::unreached(),
            },
            _ => None,
        }
    }
}

// ----- laws ---------------------------------------------------------------

/// A reply that shows that the merged segment is durable with its bytes.
pub open spec fn shows_segment(step: CompactStep, reply: CompactReply, bytes: Seq<u8>) -> bool {
    match (step, reply) {
        (CompactStep::Look, CompactReply::Found(ExistingFile::Present(there))) => there@ == bytes,
        (CompactStep::Create, CompactReply::Written) => true,
        (CompactStep::Create, CompactReply::Beaten(Ok(there))) => there@ == bytes,
        _ => false,
    }
}

/// Reply `j` of a compaction showed that the merged segment is durable.
pub open spec fn segment_shown_at(run: CompactRun, replies: Seq<CompactReply>, j: int) -> bool {
    shows_segment(run.after_all(replies.take(j)).step, replies[j], run.bytes@)
}

/// Some reply of a compaction showed that the merged segment is durable.
pub open spec fn segment_shown(run: CompactRun, replies: Seq<CompactReply>) -> bool {
    exists|j: int| 0 <= j < replies.len() && #[trigger] segment_shown_at(run, replies, j)
}

/// Whether the segments that are merged may be removed at a step.
pub open spec fn past_writing(step: CompactStep) -> bool {
    step is Remove || step is Survey || step is Finish
}

proof fn lemma_one_reply(run: CompactRun, reply: CompactReply)
    requires
        run.wf(),
    ensures
        run.after(reply).wf(),
        run.after(reply).bytes == run.bytes,
        past_writing(run.after(reply).step) ==> past_writing(run.step) || shows_segment(
            run.step,
            reply,
            run.bytes@,
        ),
{
    assert(run.obsolete.len() == run.obsolete@.len());
}

proof fn lemma_stays_shown(run: CompactRun, replies: Seq<CompactReply>)
    requires
        replies.len() > 0,
        segment_shown(run, replies.drop_last()),
    ensures
        segment_shown(run, replies),
{
    let before = replies.drop_last();
    let j = choose|j: int| 0 <= j < before.len() && #[trigger] segment_shown_at(run, before, j);
    assert(before.take(j) =~= replies.take(j));
    assert(replies[j] == before[j]);
    assert(segment_shown_at(run, replies, j));
}

proof fn lemma_run_so_far(run: CompactRun, replies: Seq<CompactReply>)
    requires
        run.is_new(),
    ensures
        run.after_all(replies).wf(),
        run.after_all(replies).bytes == run.bytes,
        past_writing(run.after_all(replies).step) ==> segment_shown(run, replies),
    decreases replies.len(),
{
    if replies.len() > 0 {
        let before = replies.drop_last();
        let reply = replies.last();
        lemma_run_so_far(run, before);
        let was = run.after_all(before);
        assert(replies.take(replies.len() - 1) =~= before);
        lemma_one_reply(was, reply);
        if past_writing(run.after_all(replies).step) {
            if past_writing(was.step) {
                lemma_stays_shown(run, replies);
            } else {
                assert(segment_shown_at(run, replies, replies.len() - 1));
            }
        }
    }
}

/// A compaction never comes to remove a segment before the merged one is durable
/// with its bytes, whatever the replies are.
pub proof fn nothing_is_removed_before_the_merged_segment(
    run: CompactRun,
    replies: Seq<CompactReply>,
)
    requires
        run.is_new(),
        run.after_all(replies).step is Remove,
    ensures
        segment_shown(run, replies),
{
    lemma_run_so_far(run, replies);
}

/// A compaction that is complete has written its merged segment.
pub proof fn a_complete_compaction_is_durable(run: CompactRun, replies: Seq<CompactReply>)
    requires
        run.is_new(),
        run.after_all(replies).step is Finish,
    ensures
        segment_shown(run, replies),
{
    lemma_run_so_far(run, replies);
}

} // verus!
