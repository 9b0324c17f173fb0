//! The order in which a save writes its files.
//!
//! A save is a run of steps. Each step asks for one thing to be done to the files
//! of the package, and the reply decides the next step. All payloads are durable
//! before the manifest that names them is written, so a save that is cut short may
//! leave payloads behind that nothing names, but never a manifest that names a
//! payload that is not there.

use vstd::prelude::*;

use crate::packages::{
    write_immutable, written_once, ExistingFile, ProjectStore, SavePlan,
};
use crate::store::{CheckpointKind, PackagePath, ProjectStoreError, SaveResult};
use crate::text::same_bytes;

verus! {

/// A payload that a save has to make durable. `path` is where it goes, or why its
/// key names no place in the package.
#[derive(Debug, PartialEq, Eq)]
pub struct SavePayload {
    pub path: Result<PackagePath, String>,
    pub bytes: Vec<u8>,
}

/// What is to be done next. A payload is named by its place in the run.
#[derive(Clone, Copy, Debug, PartialEq, Eq, Structural)]
pub enum SaveStep {
    /// Make the directory of the package.
    MakeRoot,
    /// Read what is where the payload goes.
    LookAtPayload(usize),
    /// Create the file of the payload, without replacing anything.
    CreatePayload(usize),
    /// Read what is where the manifest goes.
    LookAtManifest,
    /// Create the file of the manifest, without replacing anything.
    CreateManifest,
    /// Replace the manifest in one step.
    ReplaceManifest,
    /// Remove autosaves beyond the number that is kept.
    Rotate,
    /// Nothing: the save is complete.
    Finish,
    /// Nothing: the save failed.
    Stop,
}

/// What became of a step.
#[derive(Debug, PartialEq, Eq)]
pub enum SaveReply {
    /// What was found where a step looked.
    Found(ExistingFile),
    /// The directory or the file is there now, and durable.
    Written,
    /// Something was created at the place in the meantime: its content, or why it
    /// could not be read.
    Beaten(Result<Vec<u8>, String>),
    /// The step could not be done.
    Failed { path: PackagePath, message: String },
    /// How many autosaves were removed, or why none could be.
    Rotated(Result<usize, String>),
}

/// A save on its way.
#[derive(Debug, PartialEq, Eq)]
pub struct SaveRun {
    pub plan: SavePlan,
    pub payloads: Vec<SavePayload>,
    /// Whether the payloads could be named for this revision.
    pub scoped: Result<(), String>,
    /// The bytes of the manifest, or why it cannot be written down.
    pub manifest: Result<Vec<u8>, String>,
    pub step: SaveStep,
    /// How many payloads this save created.
    pub published: usize,
    pub rotation: Result<usize, String>,
    pub error: Option<ProjectStoreError>,
}

/// How many payloads are durable at a step.
pub open spec fn durable(step: SaveStep, payloads: nat) -> nat {
    match step {
        SaveStep::MakeRoot | SaveStep::Stop => 0,
        SaveStep::LookAtPayload(i) | SaveStep::CreatePayload(i) => i as nat,
        _ => payloads,
    }
}

impl SaveRun {
    /// The places that a run speaks of are those of its payloads and its manifest.
    pub open spec fn wf(self) -> bool {
        match self.step {
            SaveStep::MakeRoot => self.published == 0,
            SaveStep::LookAtPayload(i) | SaveStep::CreatePayload(i) => i < self.payloads@.len()
                && self.published <= i && self.payloads@[i as int].path is Ok,
            SaveStep::Stop => self.error is Some,
            SaveStep::LookAtManifest | SaveStep::CreateManifest => self.manifest is Ok
                && self.plan.kind == CheckpointKind::Autosave,
            SaveStep::ReplaceManifest => self.manifest is Ok && self.plan.kind
                == CheckpointKind::Primary,
            _ => true,
        }
    }

    /// A run that has done nothing yet.
    pub open spec fn is_new(self) -> bool {
        self.step == SaveStep::MakeRoot && self.published == 0
    }

    /// The run after a failure.
    pub open spec fn stopped(self, error: ProjectStoreError) -> SaveRun {
        SaveRun { step: SaveStep::Stop, error: Some(error), ..self }
    }

    /// The run once the first `i` payloads are durable, of which this save created
    /// `published`.
    pub open spec fn at(self, i: int, published: int) -> SaveRun {
        let run = SaveRun { published: published as usize, ..self };
        if i < self.payloads@.len() {
            match self.payloads@[i].path {
                Ok(_) => SaveRun { step: SaveStep::LookAtPayload(i as usize), ..run },
                Err(message) => run.stopped(ProjectStoreError::Format(message)),
            }
        } else {
            match (self.manifest, self.plan.kind) {
                (Err(message), _) => run.stopped(ProjectStoreError::Envelope(message)),
                (Ok(_), CheckpointKind::Primary) => SaveRun {
                    step: SaveStep::ReplaceManifest,
                    ..run
                },
                (Ok(_), CheckpointKind::Autosave) => SaveRun {
                    step: SaveStep::LookAtManifest,
                    ..run
                },
            }
        }
    }

    /// The run after a payload was looked at.
    pub open spec fn payload_found(self, i: int, existing: ExistingFile) -> SaveRun {
        match written_once(self.payloads@[i].path->Ok_0, existing, self.payloads@[i].bytes@) {
            Ok(true) => SaveRun { step: SaveStep::CreatePayload(i as usize), ..self },
            Ok(false) => self.at(i + 1, self.published as int),
            Err(error) => self.stopped(error),
        }
    }

    /// The run after something else was created where a payload goes.
    pub open spec fn payload_beaten(self, i: int, content: Result<Vec<u8>, String>) -> SaveRun {
        let path = self.payloads@[i].path->Ok_0;
        match content {
            Err(message) => self.stopped(ProjectStoreError::Io { path, message }),
            Ok(there) => if there@ == self.payloads@[i].bytes@ {
                self.at(i + 1, self.published as int)
            } else {
                self.stopped(ProjectStoreError::ImmutablePayloadConflict(path))
            },
        }
    }

    /// The run after the manifest of an autosave was looked at.
    pub open spec fn manifest_found(self, existing: ExistingFile) -> SaveRun {
        match written_once(self.plan.manifest, existing, self.manifest->Ok_0@) {
            Ok(true) => SaveRun { step: SaveStep::CreateManifest, ..self },
            Ok(false) => SaveRun { step: SaveStep::Rotate, ..self },
            Err(error) => self.stopped(error),
        }
    }

    /// The run after something else was created where the manifest goes.
    pub open spec fn manifest_beaten(self, content: Result<Vec<u8>, String>) -> SaveRun {
        match content {
            Err(message) => self.stopped(
                ProjectStoreError::Io { path: self.plan.manifest, message },
            ),
            Ok(there) => if there@ == self.manifest->Ok_0@ {
                SaveRun { step: SaveStep::Rotate, ..self }
            } else {
                self.stopped(ProjectStoreError::ImmutablePayloadConflict(self.plan.manifest))
            },
        }
    }

    /// The run after a reply. A reply to another step changes nothing.
    pub open spec fn after(self, reply: SaveReply) -> SaveRun {
        match (self.step, reply) {
            (SaveStep::Rotate, SaveReply::Rotated(rotation)) => SaveRun {
                step: SaveStep::Finish,
                rotation,
                ..self
            },
            (SaveStep::Rotate, _) | (SaveStep::Finish, _) | (SaveStep::Stop, _) => self,
            (_, SaveReply::Failed { path, message }) => self.stopped(
                ProjectStoreError::Io { path, message },
            ),
            (SaveStep::MakeRoot, SaveReply::Written) => match self.scoped {
                Ok(_) => self.at(0, 0),
                Err(message) => self.stopped(ProjectStoreError::Format(message)),
            },
            (SaveStep::LookAtPayload(i), SaveReply::Found(existing)) => self.payload_found(
                i as int,
                existing,
            ),
            (SaveStep::CreatePayload(i), SaveReply::Written) => self.at(i + 1, self.published + 1),
            (SaveStep::CreatePayload(i), SaveReply::Beaten(content)) => self.payload_beaten(
                i as int,
                content,
            ),
            (SaveStep::LookAtManifest, SaveReply::Found(existing)) => self.manifest_found(existing),
            (SaveStep::CreateManifest, SaveReply::Written) => SaveRun {
                step: SaveStep::Rotate,
                ..self
            },
            (SaveStep::CreateManifest, SaveReply::Beaten(content)) => self.manifest_beaten(content),
            (SaveStep::ReplaceManifest, SaveReply::Written) => SaveRun {
                step: SaveStep::Finish,
                ..self
            },
            _ => self,
        }
    }

    /// The run after a number of replies.
    pub open spec fn after_all(self, replies: Seq<SaveReply>) -> SaveRun
        decreases replies.len(),
    {
        if replies.len() == 0 {
            self
        } else {
            self.after_all(replies.drop_last()).after(replies.last())
        }
    }

    /// A save that is about to begin.
    pub fn new(
        plan: SavePlan,
        scoped: Result<(), String>,
        payloads: Vec<SavePayload>,
        manifest: Result<Vec<u8>, String>,
    ) -> (r: SaveRun)
        ensures
            r.is_new(),
            r.wf(),
            r.plan == plan,
            r.scoped == scoped,
            r.payloads == payloads,
            r.manifest == manifest,
            r.rotation == Ok::<usize, String>(0),
            r.error is None,
    {
        SaveRun {
            plan,
            payloads,
            scoped,
            manifest,
            step: SaveStep::MakeRoot,
            published: 0,
            rotation: Ok(0),
            error: None,
        }
    }

    fn stop(self, error: ProjectStoreError) -> (r: SaveRun)
        ensures
            r == self.stopped(error),
            r.wf(),
    {
        let mut run = self;
        run.step = SaveStep::Stop;
        run.error = Some(error);
        run
    }

    fn proceed(self, i: usize, published: usize) -> (r: SaveRun)
        requires
            published <= i <= self.payloads@.len(),
        ensures
            r == self.at(i as int, published as int),
            r.wf(),
    {
        let mut run = self;
        run.published = published;
        if i < run.payloads.len() {
            match &run.payloads[i].path {
                Ok(_) => {},
                Err(message) => {
                    let error = ProjectStoreError::Format(message.clone());
                    return run.stop(error);
                },
            }
            run.step = SaveStep::LookAtPayload(i);
            return run;
        }
        match &run.manifest {
            Ok(_) => {},
            Err(message) => {
                let error = ProjectStoreError::Envelope(message.clone());
                return run.stop(error);
            },
        }
        run.step = match run.plan.kind {
            CheckpointKind::Primary => SaveStep::ReplaceManifest,
            CheckpointKind::Autosave => SaveStep::LookAtManifest,
        };
        run
    }

    fn find_payload(self, i: usize, existing: ExistingFile) -> (r: SaveRun)
        requires
            self.wf(),
            self.step == SaveStep::LookAtPayload(i),
        ensures
            r == self.payload_found(i as int, existing),
            r.wf(),
    {
        let count: usize = self.payloads.len();
        assert(i < count);
        let decided = match &self.payloads[i].path {
            Ok(path) => write_immutable(path, &existing, &self.payloads[i].bytes),
            Err(_) => vstd::pervasive::unreached(),
        };
        match decided {
            Ok(true) => {
                let mut run = self;
                run.step = SaveStep::CreatePayload(i);
                run
            },
            Ok(false) => {
                let published: usize = self.published;
                self.proceed(i + 1, published)
            },
            Err(error) => self.stop(error),
        }
    }

    fn beat_payload(self, i: usize, content: Result<Vec<u8>, String>) -> (r: SaveRun)
        requires
            self.wf(),
            self.step == SaveStep::CreatePayload(i),
        ensures
            r == self.payload_beaten(i as int, content),
            r.wf(),
    {
        let count: usize = self.payloads.len();
        assert(i < count);
        let path = match &self.payloads[i].path {
            Ok(path) => path.clone(),
            Err(_) => vstd::pervasive::unreached(),
        };
        match content {
            Err(message) => self.stop(ProjectStoreError::Io { path, message }),
            Ok(there) => {
                if same_bytes(there.as_slice(), self.payloads[i].bytes.as_slice()) {
                    let published: usize = self.published;
                    self.proceed(i + 1, published)
                } else {
                    self.stop(ProjectStoreError::ImmutablePayloadConflict(path))
                }
            },
        }
    }

    fn find_manifest(self, existing: ExistingFile) -> (r: SaveRun)
        requires
            self.wf(),
            self.step == SaveStep::LookAtManifest,
        ensures
            r == self.manifest_found(existing),
            r.wf(),
    {
        let decided = match &self.manifest {
            Ok(bytes) => write_immutable(&self.plan.manifest, &existing, bytes),
            Err(_) => vstd::pervasive::unreached(),
        };
        let mut run = self;
        match decided {
            Ok(true) => {
                run.step = SaveStep::CreateManifest;
                run
            },
            Ok(false) => {
                run.step = SaveStep::Rotate;
                run
            },
            Err(error) => run.stop(error),
        }
    }

    fn beat_manifest(self, content: Result<Vec<u8>, String>) -> (r: SaveRun)
        requires
            self.wf(),
            self.step == SaveStep::CreateManifest,
        ensures
            r == self.manifest_beaten(content),
            r.wf(),
    {
        let path = self.plan.manifest.clone();
        match content {
            Err(message) => self.stop(ProjectStoreError::Io { path, message }),
            Ok(there) => {
                let same = match &self.manifest {
                    Ok(bytes) => same_bytes(there.as_slice(), bytes.as_slice()),
                    Err(_) => vstd::pervasive::unreached(),
                };
                if same {
                    let mut run = self;
                    run.step = SaveStep::Rotate;
                    run
                } else {
                    self.stop(ProjectStoreError::ImmutablePayloadConflict(path))
                }
            },
        }
    }

    /// Takes the reply to the step of this run.
    pub fn reply(self, reply: SaveReply) -> (r: SaveRun)
        requires
            self.wf(),
        ensures
            r == self.after(reply),
            r.wf(),
            r.plan == self.plan,
            r.payloads == self.payloads,
            r.manifest == self.manifest,
    {
        let mut run = self;
        let count: usize = run.payloads.len();
        assert(count == run.payloads@.len());
        match (run.step, reply) {
            (SaveStep::Rotate, SaveReply::Rotated(rotation)) => {
                run.step = SaveStep::Finish;
                run.rotation = rotation;
                run
            },
            (SaveStep::Rotate, _) | (SaveStep::Finish, _) | (SaveStep::Stop, _) => run,
            (_, SaveReply::Failed { path, message }) => run.stop(
                ProjectStoreError::Io { path, message },
            ),
            (SaveStep::MakeRoot, SaveReply::Written) => {
                match &run.scoped {
                    Ok(_) => {},
                    Err(message) => {
                        let error = ProjectStoreError::Format(message.clone());
                        return run.stop(error);
                    },
                }
                run.proceed(0, 0)
            },
            (SaveStep::LookAtPayload(i), SaveReply::Found(existing)) => run.find_payload(
                i,
                existing,
            ),
            (SaveStep::CreatePayload(i), SaveReply::Written) => {
                let published: usize = run.published + 1;
                run.proceed(i + 1, published)
            },
            (SaveStep::CreatePayload(i), SaveReply::Beaten(content)) => run.beat_payload(
                i,
                content,
            ),
            (SaveStep::LookAtManifest, SaveReply::Found(existing)) => run.find_manifest(existing),
            (SaveStep::CreateManifest, SaveReply::Written) => {
                run.step = SaveStep::Rotate;
                run
            },
            (SaveStep::CreateManifest, SaveReply::Beaten(content)) => run.beat_manifest(content),
            (SaveStep::ReplaceManifest, SaveReply::Written) => {
                run.step = SaveStep::Finish;
                run
            },
            _ => run,
        }
    }
}

impl ProjectStore {
    /// What a save came to, once there is nothing left to do.
    pub fn conclude_save(&self, run: SaveRun) -> (r: Option<Result<SaveResult, ProjectStoreError>>)
        requires
            run.wf(),
        ensures
            match run.step {
                SaveStep::Finish => {
                    &&& r matches Some(Ok(result))
                    &&& self.is_save_result(result, run.plan, run.published, run.rotation)
                },
                SaveStep::Stop => r == Some(
                    Err::<SaveResult, ProjectStoreError>(run.error->0),
                ),
                _ => r is None,
            },
    {
        match run.step {
            SaveStep::Finish => Some(Ok(self.finish_save(run.plan, run.published, run.rotation))),
            SaveStep::Stop => match run.error {
                Some(error) => Some(Err(error)),
                None => vstd::pervasive::unreached(),
            },
            _ => None,
        }
    }
}

// ----- laws ---------------------------------------------------------------

/// A reply that shows that the payload at place `i` is durable with its bytes.
pub open spec fn shows_payload(step: SaveStep, reply: SaveReply, i: int, bytes: Seq<u8>) -> bool {
    match (step, reply) {
        (SaveStep::LookAtPayload(k), SaveReply::Found(ExistingFile::Present(there))) => k == i
            && there@ == bytes,
        (SaveStep::CreatePayload(k), SaveReply::Written) => k == i,
        (SaveStep::CreatePayload(k), SaveReply::Beaten(Ok(there))) => k == i && there@ == bytes,
        _ => false,
    }
}

/// A reply that shows that the manifest is written.
pub open spec fn shows_manifest(step: SaveStep, reply: SaveReply, bytes: Seq<u8>) -> bool {
    match (step, reply) {
        (SaveStep::ReplaceManifest, SaveReply::Written) => true,
        (SaveStep::CreateManifest, SaveReply::Written) => true,
        (SaveStep::LookAtManifest, SaveReply::Found(ExistingFile::Present(there))) => there@
            == bytes,
        (SaveStep::CreateManifest, SaveReply::Beaten(Ok(there))) => there@ == bytes,
        _ => false,
    }
}

/// Reply `j` of a save showed that the payload at place `i` is durable.
pub open spec fn payload_shown_at(run: SaveRun, replies: Seq<SaveReply>, i: int, j: int) -> bool {
    shows_payload(run.after_all(replies.take(j)).step, replies[j], i, run.payloads@[i].bytes@)
}

/// Some reply of a save showed that the payload at place `i` is durable.
pub open spec fn payload_shown(run: SaveRun, replies: Seq<SaveReply>, i: int) -> bool {
    exists|j: int| 0 <= j < replies.len() && #[trigger] payload_shown_at(run, replies, i, j)
}

/// Reply `j` of a save showed that the manifest is written.
pub open spec fn manifest_shown_at(run: SaveRun, replies: Seq<SaveReply>, j: int) -> bool {
    shows_manifest(run.after_all(replies.take(j)).step, replies[j], run.manifest->Ok_0@)
}

/// Some reply of a save showed that the manifest is written.
pub open spec fn manifest_shown(run: SaveRun, replies: Seq<SaveReply>) -> bool {
    exists|j: int| 0 <= j < replies.len() && #[trigger] manifest_shown_at(run, replies, j)
}

/// What one reply does to a run.
proof fn lemma_one_reply(run: SaveRun, reply: SaveReply)
    requires
        run.wf(),
    ensures
        run.after(reply).wf(),
        run.after(reply).payloads == run.payloads,
        run.after(reply).manifest == run.manifest,
        forall|i: int|
            #![trigger run.payloads@[i]]
            0 <= i < durable(run.after(reply).step, run.payloads@.len()) && i >= durable(
                run.step,
                run.payloads@.len(),
            ) ==> shows_payload(run.step, reply, i, run.payloads@[i].bytes@),
        (run.after(reply).step is Rotate || run.after(reply).step is Finish) <==> (run.step is Rotate
            || run.step is Finish || shows_manifest(run.step, reply, run.manifest->Ok_0@)),
{
    assert(run.payloads.len() == run.payloads@.len());
}

proof fn lemma_run_so_far(run: SaveRun, replies: Seq<SaveReply>)
    requires
        run.is_new(),
    ensures
        run.after_all(replies).wf(),
        run.after_all(replies).payloads == run.payloads,
        run.after_all(replies).manifest == run.manifest,
        forall|i: int|
            0 <= i < durable(run.after_all(replies).step, run.payloads@.len())
                ==> #[trigger] payload_shown(run, replies, i),
        (run.after_all(replies).step is Rotate || run.after_all(replies).step is Finish)
            <==> manifest_shown(run, replies),
    decreases replies.len(),
{
    if replies.len() > 0 {
        let before = replies.drop_last();
        let reply = replies.last();
        lemma_run_so_far(run, before);
        let was = run.after_all(before);
        assert(replies.take(replies.len() - 1) =~= before);
        lemma_one_reply(was, reply);
        assert forall|i: int|
            0 <= i < durable(run.after_all(replies).step, run.payloads@.len()) implies #[trigger]
        payload_shown(run, replies, i) by {
            if i < durable(was.step, run.payloads@.len()) {
                assert(payload_shown(run, before, i));
                lemma_payload_stays_shown(run, replies, i);
            } else {
                assert(shows_payload(was.step, reply, i, was.payloads@[i].bytes@));
                assert(payload_shown_at(run, replies, i, replies.len() - 1));
            }
        }
        assert(manifest_shown_at(run, replies, replies.len() - 1) == shows_manifest(
            was.step,
            reply,
            was.manifest->Ok_0@,
        ));
        lemma_manifest_shown_by(run, replies);
    }
}

proof fn lemma_payload_stays_shown(run: SaveRun, replies: Seq<SaveReply>, i: int)
    requires
        replies.len() > 0,
        payload_shown(run, replies.drop_last(), i),
    ensures
        payload_shown(run, replies, i),
{
    let before = replies.drop_last();
    let j = choose|j: int| 0 <= j < before.len() && #[trigger] payload_shown_at(run, before, i, j);
    assert(before.take(j) =~= replies.take(j));
    assert(replies[j] == before[j]);
    assert(payload_shown_at(run, replies, i, j));
}

proof fn lemma_manifest_shown_by(run: SaveRun, replies: Seq<SaveReply>)
    requires
        replies.len() > 0,
    ensures
        manifest_shown(run, replies) <==> (manifest_shown(run, replies.drop_last())
            || manifest_shown_at(run, replies, replies.len() - 1)),
{
    let before = replies.drop_last();
    assert forall|j: int| 0 <= j < before.len() implies #[trigger] manifest_shown_at(run, before, j)
        == manifest_shown_at(run, replies, j) by {
        assert(before.take(j) =~= replies.take(j));
        assert(before[j] == replies[j]);
    }
    if manifest_shown(run, before) {
        let j = choose|j: int| 0 <= j < before.len() && #[trigger] manifest_shown_at(run, before, j);
        assert(manifest_shown_at(run, replies, j));
    }
    if manifest_shown(run, replies) {
        let j = choose|j: int|
            0 <= j < replies.len() && #[trigger] manifest_shown_at(run, replies, j);
        if j < before.len() {
            assert(manifest_shown_at(run, before, j));
        }
    }
}

/// A save never comes to write its manifest before every payload is durable with
/// its bytes, whatever the replies are.
pub proof fn the_manifest_comes_last(run: SaveRun, replies: Seq<SaveReply>, i: int)
    requires
        run.is_new(),
        0 <= i < run.payloads@.len(),
        match run.after_all(replies).step {
            SaveStep::LookAtManifest | SaveStep::CreateManifest | SaveStep::ReplaceManifest => true,
            _ => false,
        },
    ensures
        payload_shown(run, replies, i),
{
    lemma_run_so_far(run, replies);
}

/// A save that is complete has its manifest written and every payload durable.
pub proof fn a_complete_save_is_durable(run: SaveRun, replies: Seq<SaveReply>)
    requires
        run.is_new(),
        run.after_all(replies).step is Finish,
    ensures
        manifest_shown(run, replies),
        forall|i: int| 0 <= i < run.payloads@.len() ==> payload_shown(run, replies, i),
{
    lemma_run_so_far(run, replies);
}

/// A save that failed has not written its manifest.
pub proof fn a_failed_save_leaves_the_manifest(run: SaveRun, replies: Seq<SaveReply>)
    requires
        run.is_new(),
        run.after_all(replies).step is Stop,
    ensures
        !manifest_shown(run, replies),
{
    lemma_run_so_far(run, replies);
}

} // verus!
