//! Keeping the number of journal segments bounded without losing a command.
//!
//! Old segments are merged into one; they may be removed only after the merged
//! segment is durable. Damaged segments are never touched.

use std::sync::Arc;

use vstd::prelude::*;
use vstd::string::*;

use crate::packages::ProjectStore;
use crate::rank::{
    ranked, ranked_commutes_with_views, ranked_is_an_ordering, sort_by_rank, HasRank, Ranked,
};
use crate::store::{
    copy_paths, path_rank, segment_name, write_segment_name, JournalFrame, JournalRecoveryCandidate,
    JournalTail, PackagePath, PathView, ProjectStoreError, RecoveredSegment, RecoveryDiscovery,
};
use crate::text::{append_decimal, decimal, optional_text, owned};

verus! {

/// What compacting came to.
#[derive(Debug, PartialEq, Eq)]
pub struct JournalCompactionResult {
    pub compacted_path: Option<PackagePath>,
    pub source_segments: Vec<PackagePath>,
    pub active_segments: Vec<PackagePath>,
    pub frames_preserved: usize,
    pub skipped_reason: Option<String>,
}

/// How many segments may be active by default.
pub const DEFAULT_MAX_ACTIVE_JOURNAL_SEGMENTS: usize = 8;

/// Nothing was compacted, for a reason.
pub open spec fn is_skip(
    result: JournalCompactionResult,
    active: Seq<PackagePath>,
    reason: Seq<char>,
) -> bool {
    &&& result.compacted_path is None
    &&& result.source_segments@.len() == 0
    &&& result.active_segments@ == active
    &&& result.frames_preserved == 0
    &&& optional_text(result.skipped_reason) == Some(reason)
}

fn skip(active: &Vec<PackagePath>, reason: String) -> (r: JournalCompactionResult)
    ensures
        is_skip(r, active@, reason@),
{
    JournalCompactionResult {
        compacted_path: None,
        source_segments: Vec::new(),
        active_segments: copy_paths(active),
        frames_preserved: 0,
        skipped_reason: Some(reason),
    }
}

// ----- which segments -----------------------------------------------------

/// A clean segment and the first sequence number in it.
#[derive(Debug)]
pub struct CleanSegment {
    pub first_sequence: u64,
    pub path: PackagePath,
}

/// What a clean segment holds.
pub struct CleanView {
    pub first_sequence: u64,
    pub path: PackagePath,
}

impl View for CleanSegment {
    type V = CleanView;

    open spec fn view(&self) -> CleanView {
        CleanView { first_sequence: self.first_sequence, path: self.path }
    }
}

impl HasRank for CleanView {
    open spec fn rank(&self) -> Seq<u64> {
        seq![self.first_sequence] + path_rank(self.path@)
    }
}

impl HasRank for CleanSegment {
    open spec fn rank(&self) -> Seq<u64> {
        seq![self.first_sequence] + path_rank(self.path@)
    }
}

impl Ranked for CleanSegment {
    fn rank_key(&self) -> (r: Vec<u64>) {
        let mut key: Vec<u64> = Vec::new();
        key.push(self.first_sequence);
        let mut rest = self.path.rank_key();
        key.append(&mut rest);
        assert(key@ =~= self.rank());
        key
    }
}

/// What a list of clean segments holds.
pub open spec fn clean_views(list: Seq<CleanSegment>) -> Seq<CleanView> {
    list.map_values(|c: CleanSegment| c@)
}

/// Those of the first `i` candidates that are clean and not empty.
pub open spec fn clean_segments(list: Seq<JournalRecoveryCandidate>, i: int) -> Seq<CleanView>
    decreases i,
{
    if i <= 0 {
        Seq::empty()
    } else {
        let before = clean_segments(list, i - 1);
        match (list[i - 1].tail, list[i - 1].first_sequence) {
            (JournalTail::Clean, Some(first_sequence)) => before.push(
                CleanView { first_sequence, path: list[i - 1].path },
            ),
            _ => before,
        }
    }
}

/// The paths of clean segments.
pub open spec fn clean_paths(list: Seq<CleanView>) -> Seq<PackagePath> {
    list.map_values(|c: CleanView| c.path)
}

/// How many segments have to be merged so that at most so many stay.
pub open spec fn compact_count(clean: int, max_active_segments: int) -> int {
    clean - (max_active_segments - 1)
}

/// What to do about the number of segments.
#[derive(Debug, PartialEq, Eq)]
pub enum CompactionStep {
    Done(JournalCompactionResult),
    /// Read and merge these segments, oldest first.
    Merge(Vec<PackagePath>),
}

/// The first step of a compaction: with more clean segments than may stay, the oldest of
/// them are merged, so that with the merged one so many are left.
pub open spec fn is_compaction_step(
    r: Result<CompactionStep, ProjectStoreError>,
    found: RecoveryDiscovery,
    max_active_segments: usize,
) -> bool {
    let clean = ranked(
        clean_segments(found.journal_candidates@, found.journal_candidates@.len() as int),
    );
    if max_active_segments < 2 {
        r == Err::<CompactionStep, ProjectStoreError>(
            ProjectStoreError::InvalidJournalRetention(max_active_segments),
        )
    } else if clean.len() <= max_active_segments {
        r matches Ok(CompactionStep::Done(result)) && is_skip(
            result,
            found.journals@,
            "active journal segment count is already bounded"@,
        )
    } else {
        r matches Ok(CompactionStep::Merge(sources)) && sources@ == clean_paths(clean).take(
            compact_count(clean.len() as int, max_active_segments as int),
        )
    }
}

impl ProjectStore {
    /// Decides which segments to merge: the oldest clean ones, as many as needed.
    pub fn compact_journal_segments(
        &self,
        found: &RecoveryDiscovery,
        max_active_segments: usize,
    ) -> (r: Result<CompactionStep, ProjectStoreError>)
        ensures
            is_compaction_step(r, *found, max_active_segments),
    {
        if max_active_segments < 2 {
            return Err(ProjectStoreError::InvalidJournalRetention(max_active_segments));
        }
        let list = &found.journal_candidates;
        let mut clean: Vec<CleanSegment> = Vec::new();
        let mut i: usize = 0;
        assert(clean_views(clean@) =~= Seq::<CleanView>::empty());
        while i < list.len()
            invariant
                i <= list.len(),
                clean_views(clean@) == clean_segments(list@, i as int),
            decreases list.len() - i,
        {
            let ghost before = clean_views(clean@);
            match (list[i].tail, list[i].first_sequence) {
                (JournalTail::Clean, Some(first_sequence)) => {
                    let segment = CleanSegment { first_sequence, path: list[i].path.clone() };
                    clean.push(segment);
                    assert(clean_views(clean@) =~= before.push(segment@));
                },
                _ => {},
            }
            i = i + 1;
        }
        proof {
            ranked_commutes_with_views(clean@, |c: CleanSegment| c@);
        }
        let clean = sort_by_rank(clean);
        let ghost views = clean_views(clean@);
        assert(views.len() == clean@.len());
        if clean.len() <= max_active_segments {
            return Ok(
                CompactionStep::Done(
                    skip(&found.journals, owned("active journal segment count is already bounded")),
                ),
            );
        }
        let count: usize = clean.len() - (max_active_segments - 1);
        let mut sources: Vec<PackagePath> = Vec::new();
        let mut k: usize = 0;
        while k < count
            invariant
                k <= count <= clean.len(),
                views == clean_views(clean@),
                sources@ =~= clean_paths(views).take(k as int),
            decreases count - k,
        {
            assert(views[k as int] == clean@[k as int]@);
            sources.push(clean[k].path.clone());
            assert(clean_paths(views).take(k as int + 1) =~= clean_paths(views).take(k as int).push(
                clean_paths(views)[k as int],
            ));
            k = k + 1;
        }
        Ok(CompactionStep::Merge(sources))
    }
}

// ----- merging ------------------------------------------------------------

/// Why segments are not merged, or cannot be read.
pub enum MergeStop {
    Io { path: PathView, message: Seq<char> },
    Changed(PathView),
    Conflict(u64),
}

/// The index of the frame with a sequence number, from `i` on.
pub open spec fn frame_at(frames: Seq<Arc<JournalFrame>>, sequence: u64, i: int) -> Option<int>
    decreases frames.len() - i,
{
    if i < 0 || i >= frames.len() {
        None
    } else if frames[i].sequence == sequence {
        Some(i)
    } else {
        frame_at(frames, sequence, i + 1)
    }
}

/// The frames after the first `i` of a segment were taken in: each once, and no
/// two different ones of the same number.
pub open spec fn gathered(
    state: Seq<Arc<JournalFrame>>,
    frames: Seq<Arc<JournalFrame>>,
    i: int,
) -> Result<Seq<Arc<JournalFrame>>, MergeStop>
    decreases i,
{
    if i <= 0 {
        Ok(state)
    } else {
        match gathered(state, frames, i - 1) {
            Err(stop) => Err(stop),
            Ok(done) => match frame_at(done, frames[i - 1].sequence, 0) {
                Some(k) => if done[k]@ != frames[i - 1]@ {
                    Err(MergeStop::Conflict(frames[i - 1].sequence))
                } else {
                    Ok(done)
                },
                None => Ok(done.push(frames[i - 1])),
            },
        }
    }
}

/// The frames of the first `i` segments, or why they are not merged.
pub open spec fn merged_frames(
    sources: Seq<PackagePath>,
    contents: Seq<Result<Arc<RecoveredSegment>, String>>,
    i: int,
) -> Result<Seq<Arc<JournalFrame>>, MergeStop>
    decreases i,
{
    if i <= 0 {
        Ok(Seq::empty())
    } else {
        match merged_frames(sources, contents, i - 1) {
            Err(stop) => Err(stop),
            Ok(done) => match contents[i - 1] {
                Err(message) => Err(
                    MergeStop::Io { path: sources[i - 1]@, message: message@ },
                ),
                Ok(segment) => if segment.tail != JournalTail::Clean {
                    Err(MergeStop::Changed(sources[i - 1]@))
                } else {
                    gathered(done, segment.frames@, segment.frames@.len() as int)
                },
            },
        }
    }
}

proof fn lemma_gathered_error(
    state: Seq<Arc<JournalFrame>>,
    frames: Seq<Arc<JournalFrame>>,
    i: int,
    j: int,
)
    requires
        0 <= i <= j,
        gathered(state, frames, i) is Err,
    ensures
        gathered(state, frames, j) == gathered(state, frames, i),
    decreases j - i,
{
    if i < j {
        lemma_gathered_error(state, frames, i, j - 1);
    }
}

proof fn lemma_merged_error(
    sources: Seq<PackagePath>,
    contents: Seq<Result<Arc<RecoveredSegment>, String>>,
    i: int,
    j: int,
)
    requires
        0 <= i <= j,
        merged_frames(sources, contents, i) is Err,
    ensures
        merged_frames(sources, contents, j) == merged_frames(sources, contents, i),
    decreases j - i,
{
    if i < j {
        lemma_merged_error(sources, contents, i, j - 1);
    }
}

/// A frame in the order of its sequence number.
pub struct OrderedFrame {
    pub frame: Arc<JournalFrame>,
}

impl HasRank for OrderedFrame {
    open spec fn rank(&self) -> Seq<u64> {
        seq![self.frame.sequence]
    }
}

impl Ranked for OrderedFrame {
    fn rank_key(&self) -> (r: Vec<u64>) {
        let mut key: Vec<u64> = Vec::new();
        key.push(self.frame.sequence);
        assert(key@ =~= self.rank());
        key
    }
}

/// Frames to be ordered.
pub open spec fn to_order(frames: Seq<Arc<JournalFrame>>) -> Seq<OrderedFrame> {
    frames.map_values(|f: Arc<JournalFrame>| OrderedFrame { frame: f })
}

/// Frames in the order of their sequence numbers.
pub open spec fn in_order(frames: Seq<Arc<JournalFrame>>) -> Seq<Arc<JournalFrame>> {
    ranked(to_order(frames)).map_values(|o: OrderedFrame| o.frame)
}

/// Whether frame `i + 1` goes on where frame `i` ended.
pub open spec fn goes_on(frames: Seq<Arc<JournalFrame>>, i: int) -> bool {
    &&& frames[i].sequence < u64::MAX
    &&& frames[i + 1].sequence == frames[i].sequence + 1
    &&& frames[i].resulting_revision == frames[i + 1].base_revision
}

/// Frames that form one history: no number is left out, and each starts where
/// the one before it ended.
pub open spec fn contiguous(frames: Seq<Arc<JournalFrame>>) -> bool {
    forall|i: int| 0 <= i < frames.len() - 1 ==> #[trigger] goes_on(frames, i)
}

/// The merged segment to write.
#[derive(Debug, PartialEq, Eq)]
pub enum Compaction {
    Skipped(JournalCompactionResult),
    Write { name: String, frames: Vec<Arc<JournalFrame>> },
}

/// What merging comes to.
pub open spec fn compaction_outcome(
    journals: Seq<PackagePath>,
    sources: Seq<PackagePath>,
    contents: Seq<Result<Arc<RecoveredSegment>, String>>,
    outcome: Result<Compaction, ProjectStoreError>,
) -> bool {
    match merged_frames(sources, contents, sources.len() as int) {
        Err(MergeStop::Io { path, message }) => outcome matches Err(
            ProjectStoreError::Io { path: p, message: m },
        ) && p@ == path && m@ == message,
        Err(MergeStop::Changed(path)) => outcome matches Ok(Compaction::Skipped(result)) && is_skip(
            result,
            journals,
            "journal candidate "@ + path.directory + "/"@ + path.leaf
                + " changed while compaction was prepared"@,
        ),
        Err(MergeStop::Conflict(sequence)) => outcome matches Ok(Compaction::Skipped(result))
            && is_skip(
            result,
            journals,
            "conflicting journal sequence "@ + decimal(sequence as nat) + " prevents compaction"@,
        ),
        Ok(found) => {
            let frames = in_order(found);
            if frames.len() == 0 {
                outcome matches Ok(Compaction::Skipped(result)) && is_skip(
                    result,
                    journals,
                    "selected journal segments have no verified frames"@,
                )
            } else if !contiguous(frames) {
                outcome matches Ok(Compaction::Skipped(result)) && is_skip(
                    result,
                    journals,
                    "selected journal segments are not one contiguous history"@,
                )
            } else {
                outcome matches Ok(Compaction::Write { name, frames: written }) && written@
                    == frames && name@ == segment_name(
                    "compacted"@,
                    frames[0].base_revision,
                    frames.last().resulting_revision,
                    frames[0].sequence,
                    frames.last().sequence,
                )
            }
        },
    }
}

fn find_frame(frames: &Vec<Arc<JournalFrame>>, sequence: u64) -> (r: Option<usize>)
    ensures
        match r {
            Some(i) => frame_at(frames@, sequence, 0) == Some(i as int) && i < frames@.len(),
            None => frame_at(frames@, sequence, 0) is None,
        },
{
    let mut i: usize = 0;
    while i < frames.len()
        invariant
            i <= frames.len(),
            frame_at(frames@, sequence, 0) == frame_at(frames@, sequence, i as int),
        decreases frames.len() - i,
    {
        if frames[i].sequence == sequence {
            return Some(i);
        }
        i = i + 1;
    }
    None
}

fn gather(state: &mut Vec<Arc<JournalFrame>>, frames: &Vec<Arc<JournalFrame>>) -> (r: Option<u64>)
    ensures
        match gathered(old(state)@, frames@, frames@.len() as int) {
            Ok(done) => r is None && final(state)@ == done,
            Err(stop) => r matches Some(sequence) && stop == MergeStop::Conflict(sequence),
        },
{
    let ghost start = state@;
    let mut i: usize = 0;
    while i < frames.len()
        invariant
            i <= frames.len(),
            start == old(state)@,
            gathered(start, frames@, i as int) == Ok::<Seq<Arc<JournalFrame>>, MergeStop>(state@),
        decreases frames.len() - i,
    {
        match find_frame(state, frames[i].sequence) {
            Some(k) => {
                if !same_frame(&state[k], &frames[i]) {
                    proof {
                        lemma_gathered_error(
                            start,
                            frames@,
                            i as int + 1,
                            frames@.len() as int,
                        );
                    }
                    return Some(frames[i].sequence);
                }
            },
            None => {
                state.push(frames[i].clone());
            },
        }
        i = i + 1;
    }
    None
}

fn same_frame(left: &Arc<JournalFrame>, right: &Arc<JournalFrame>) -> (r: bool)
    ensures
        r == (left@ == right@),
{
    left.same(right)
}

fn order_frames(frames: Vec<Arc<JournalFrame>>) -> (r: Vec<Arc<JournalFrame>>)
    ensures
        r@ == in_order(frames@),
{
    let mut list: Vec<OrderedFrame> = Vec::new();
    let mut i: usize = 0;
    while i < frames.len()
        invariant
            i <= frames.len(),
            list@ =~= to_order(frames@).take(i as int),
        decreases frames.len() - i,
    {
        list.push(OrderedFrame { frame: frames[i].clone() });
        assert(to_order(frames@).take(i as int + 1) =~= to_order(frames@).take(i as int).push(
            to_order(frames@)[i as int],
        ));
        i = i + 1;
    }
    assert(to_order(frames@).take(i as int) =~= to_order(frames@));
    let sorted = sort_by_rank(list);
    let ghost target = in_order(frames@);
    let mut out: Vec<Arc<JournalFrame>> = Vec::new();
    let mut k: usize = 0;
    while k < sorted.len()
        invariant
            k <= sorted.len(),
            target == sorted@.map_values(|o: OrderedFrame| o.frame),
            out@ =~= target.take(k as int),
        decreases sorted.len() - k,
    {
        out.push(sorted[k].frame.clone());
        assert(target.take(k as int + 1) =~= target.take(k as int).push(target[k as int]));
        k = k + 1;
    }
    assert(target.take(k as int) =~= target);
    out
}

fn is_contiguous(frames: &Vec<Arc<JournalFrame>>) -> (r: bool)
    ensures
        r == contiguous(frames@),
{
    if frames.len() == 0 {
        return true;
    }
    let mut i: usize = 0;
    while i < frames.len() - 1
        invariant
            i < frames@.len(),
            forall|k: int| 0 <= k < i ==> #[trigger] goes_on(frames@, k),
        decreases frames.len() - i,
    {
        let before = &frames[i];
        let after = &frames[i + 1];
        if before.sequence == u64::MAX || after.sequence != before.sequence + 1
            || before.resulting_revision != after.base_revision {
            assert(!goes_on(frames@, i as int));
            return false;
        }
        assert(goes_on(frames@, i as int));
        i = i + 1;
    }
    true
}

/// Merges segments as they were read, in the order they were to be read.
pub fn prepare_compaction(
    journals: &Vec<PackagePath>,
    sources: &Vec<PackagePath>,
    contents: &Vec<Result<Arc<RecoveredSegment>, String>>,
) -> (r: Result<Compaction, ProjectStoreError>)
    requires
        contents@.len() == sources@.len(),
    ensures
        compaction_outcome(journals@, sources@, contents@, r),
{
    let mut frames: Vec<Arc<JournalFrame>> = Vec::new();
    let mut i: usize = 0;
    while i < sources.len()
        invariant
            i <= sources.len(),
            contents@.len() == sources@.len(),
            merged_frames(sources@, contents@, i as int) == Ok::<
                Seq<Arc<JournalFrame>>,
                MergeStop,
            >(frames@),
        decreases sources.len() - i,
    {
        let ghost n = sources@.len() as int;
        match &contents[i] {
            Err(message) => {
                proof {
                    lemma_merged_error(sources@, contents@, i as int + 1, n);
                }
                return Err(
                    ProjectStoreError::Io { path: sources[i].clone(), message: message.clone() },
                );
            },
            Ok(segment) => {
                let clean = match segment.tail {
                    JournalTail::Clean => true,
                    _ => false,
                };
                if !clean {
                    proof {
                        lemma_merged_error(sources@, contents@, i as int + 1, n);
                    }
                    let mut reason = owned("journal candidate ");
                    reason.append(sources[i].directory.as_str());
                    reason.append("/");
                    reason.append(sources[i].leaf.as_str());
                    reason.append(" changed while compaction was prepared");
                    return Ok(Compaction::Skipped(skip(journals, reason)));
                }
                match gather(&mut frames, &segment.frames) {
                    Some(sequence) => {
                        proof {
                            lemma_merged_error(sources@, contents@, i as int + 1, n);
                        }
                        let mut reason = owned("conflicting journal sequence ");
                        append_decimal(&mut reason, sequence);
                        reason.append(" prevents compaction");
                        return Ok(Compaction::Skipped(skip(journals, reason)));
                    },
                    None => {},
                }
            },
        }
        i = i + 1;
    }
    let frames = order_frames(frames);
    if frames.len() == 0 {
        return Ok(
            Compaction::Skipped(
                skip(journals, owned("selected journal segments have no verified frames")),
            ),
        );
    }
    if !is_contiguous(&frames) {
        return Ok(
            Compaction::Skipped(
                skip(journals, owned("selected journal segments are not one contiguous history")),
            ),
        );
    }
    let first = &frames[0];
    let last = &frames[frames.len() - 1];
    let name = write_segment_name(
        "compacted",
        first.base_revision,
        last.resulting_revision,
        first.sequence,
        last.sequence,
    );
    Ok(Compaction::Write { name, frames })
}

/// Those of the first `i` merged segments that are to be removed: all but the
/// merged one itself.
pub open spec fn obsolete(sources: Seq<PackagePath>, compacted: PathView, i: int) -> Seq<
    PackagePath,
>
    decreases i,
{
    if i <= 0 {
        Seq::empty()
    } else if sources[i - 1]@ != compacted {
        obsolete(sources, compacted, i - 1).push(sources[i - 1])
    } else {
        obsolete(sources, compacted, i - 1)
    }
}

/// The segments to remove once the merged one is durable.
pub fn obsolete_segments(sources: &Vec<PackagePath>, compacted: &PackagePath) -> (r: Vec<
    PackagePath,
>)
    ensures
        r@ == obsolete(sources@, compacted@, sources@.len() as int),
{
    let mut out: Vec<PackagePath> = Vec::new();
    let mut i: usize = 0;
    while i < sources.len()
        invariant
            i <= sources.len(),
            out@ == obsolete(sources@, compacted@, i as int),
        decreases sources.len() - i,
    {
        if !sources[i].same(compacted) {
            out.push(sources[i].clone());
        }
        i = i + 1;
    }
    out
}

/// What a finished compaction says.
pub fn finish_compaction(
    compacted: PackagePath,
    sources: Vec<PackagePath>,
    active: Vec<PackagePath>,
    frames_preserved: usize,
) -> (r: JournalCompactionResult)
    ensures
        r.compacted_path == Some(compacted),
        r.source_segments == sources,
        r.active_segments@ == ranked(active@),
        r.frames_preserved == frames_preserved,
        r.skipped_reason is None,
{
    JournalCompactionResult {
        compacted_path: Some(compacted),
        source_segments: sources,
        active_segments: sort_by_rank(active),
        frames_preserved,
        skipped_reason: None,
    }
}

// ----- laws -------------------------------------------------------------

/// Whether a list holds a frame that says the same.
pub open spec fn holds_frame(list: Seq<Arc<JournalFrame>>, frame: Arc<JournalFrame>) -> bool {
    exists|k: int| 0 <= k < list.len() && (#[trigger] list[k])@ == frame@
}

proof fn lemma_frame_at(frames: Seq<Arc<JournalFrame>>, sequence: u64, i: int)
    requires
        0 <= i,
    ensures
        match frame_at(frames, sequence, i) {
            Some(k) => i <= k < frames.len() && frames[k].sequence == sequence,
            None => forall|k: int| i <= k < frames.len() ==> (#[trigger] frames[k]).sequence != sequence,
        },
    decreases frames.len() - i,
{
    if i < frames.len() && frames[i].sequence != sequence {
        lemma_frame_at(frames, sequence, i + 1);
    }
}

proof fn lemma_gathered_keeps(
    state: Seq<Arc<JournalFrame>>,
    frames: Seq<Arc<JournalFrame>>,
    i: int,
    frame: Arc<JournalFrame>,
)
    requires
        0 <= i <= frames.len(),
        gathered(state, frames, i) is Ok,
        holds_frame(state, frame),
    ensures
        holds_frame(gathered(state, frames, i)->Ok_0, frame),
    decreases i,
{
    if i > 0 {
        lemma_gathered_keeps(state, frames, i - 1, frame);
        let done = gathered(state, frames, i - 1)->Ok_0;
        let out = gathered(state, frames, i)->Ok_0;
        let k = choose|k: int| 0 <= k < done.len() && (#[trigger] done[k])@ == frame@;
        assert(out[k] == done[k]);
    }
}

proof fn lemma_gathered_takes(
    state: Seq<Arc<JournalFrame>>,
    frames: Seq<Arc<JournalFrame>>,
    i: int,
    m: int,
)
    requires
        0 <= m < i <= frames.len(),
        gathered(state, frames, i) is Ok,
    ensures
        holds_frame(gathered(state, frames, i)->Ok_0, frames[m]),
    decreases i,
{
    let done = gathered(state, frames, i - 1)->Ok_0;
    let out = gathered(state, frames, i)->Ok_0;
    if m < i - 1 {
        lemma_gathered_takes(state, frames, i - 1, m);
        let k = choose|k: int| 0 <= k < done.len() && (#[trigger] done[k])@ == frames[m]@;
        assert(out[k] == done[k]);
    } else {
        lemma_frame_at(done, frames[m].sequence, 0);
        match frame_at(done, frames[m].sequence, 0) {
            Some(k) => {
                assert(out[k]@ == frames[m]@);
            },
            None => {
                assert(out[done.len() as int] == frames[m]);
            },
        }
    }
}

proof fn lemma_merged_keeps(
    sources: Seq<PackagePath>,
    contents: Seq<Result<Arc<RecoveredSegment>, String>>,
    n: int,
    p: int,
    m: int,
)
    requires
        0 <= p < n <= sources.len(),
        contents.len() == sources.len(),
        merged_frames(sources, contents, n) is Ok,
        contents[p] is Ok,
        0 <= m < contents[p]->Ok_0.frames@.len(),
    ensures
        holds_frame(merged_frames(sources, contents, n)->Ok_0, contents[p]->Ok_0.frames@[m]),
    decreases n,
{
    let done = merged_frames(sources, contents, n - 1)->Ok_0;
    let last = contents[n - 1]->Ok_0.frames@;
    if p < n - 1 {
        lemma_merged_keeps(sources, contents, n - 1, p, m);
        lemma_gathered_keeps(done, last, last.len() as int, contents[p]->Ok_0.frames@[m]);
    } else {
        lemma_gathered_takes(done, last, last.len() as int, m);
    }
}

proof fn lemma_in_order_holds(frames: Seq<Arc<JournalFrame>>, frame: Arc<JournalFrame>)
    requires
        holds_frame(frames, frame),
    ensures
        holds_frame(in_order(frames), frame),
{
    broadcast use vstd::seq_lib::group_to_multiset_ensures;

    let list = to_order(frames);
    ranked_is_an_ordering(list);
    let k = choose|k: int| 0 <= k < frames.len() && (#[trigger] frames[k])@ == frame@;
    let item = list[k];
    assert(list.contains(item));
    assert(list.to_multiset().count(item) > 0);
    assert(ranked(list).contains(item));
    let m = choose|m: int| 0 <= m < ranked(list).len() && ranked(list)[m] == item;
    assert(in_order(frames)[m] == item.frame);
}

/// No command is lost: whatever a merged segment held, the segment written for it
/// holds.
pub proof fn compaction_keeps_every_frame(
    sources: Seq<PackagePath>,
    contents: Seq<Result<Arc<RecoveredSegment>, String>>,
    p: int,
    m: int,
)
    requires
        contents.len() == sources.len(),
        merged_frames(sources, contents, sources.len() as int) is Ok,
        0 <= p < sources.len(),
        contents[p] is Ok,
        0 <= m < contents[p]->Ok_0.frames@.len(),
    ensures
        holds_frame(
            in_order(merged_frames(sources, contents, sources.len() as int)->Ok_0),
            contents[p]->Ok_0.frames@[m],
        ),
{
    lemma_merged_keeps(sources, contents, sources.len() as int, p, m);
    lemma_in_order_holds(
        merged_frames(sources, contents, sources.len() as int)->Ok_0,
        contents[p]->Ok_0.frames@[m],
    );
}

/// Merging leaves no more segments than are allowed: the merged one and those
/// that were not merged.
pub proof fn compaction_bounds_segments(clean: int, max_active_segments: int)
    requires
        2 <= max_active_segments < clean,
    ensures
        2 <= compact_count(clean, max_active_segments) <= clean,
        clean - compact_count(clean, max_active_segments) + 1 == max_active_segments,
{
}

proof fn lemma_clean_segment(list: Seq<JournalRecoveryCandidate>, i: int, c: CleanView)
    requires
        0 <= i <= list.len(),
        clean_segments(list, i).contains(c),
    ensures
        exists|k: int|
            0 <= k < i && (#[trigger] list[k]).path == c.path && list[k].tail == JournalTail::Clean,
    decreases i,
{
    if i > 0 {
        let before = clean_segments(list, i - 1);
        let all = clean_segments(list, i);
        let m = choose|m: int| 0 <= m < all.len() && all[m] == c;
        if m < before.len() {
            assert(before[m] == c);
            assert(before.contains(c));
            lemma_clean_segment(list, i - 1, c);
        } else {
            assert(list[i - 1].path == c.path);
        }
    }
}

proof fn lemma_obsolete(sources: Seq<PackagePath>, compacted: PathView, i: int, k: int)
    requires
        0 <= i <= sources.len(),
        0 <= k < obsolete(sources, compacted, i).len(),
    ensures
        obsolete(sources, compacted, i)[k]@ != compacted,
        sources.contains(obsolete(sources, compacted, i)[k]),
    decreases i,
{
    if i > 0 {
        let before = obsolete(sources, compacted, i - 1);
        if k < before.len() {
            lemma_obsolete(sources, compacted, i - 1, k);
        } else {
            assert(sources[i - 1] == obsolete(sources, compacted, i)[k]);
        }
    }
}

/// Only segments that were found clean are removed, and never the one that was
/// written for them. A torn or damaged segment stays where it is.
pub proof fn only_clean_segments_are_removed(
    candidates: Seq<JournalRecoveryCandidate>,
    count: int,
    compacted: PathView,
    k: int,
)
    requires
        0 <= count <= clean_segments(candidates, candidates.len() as int).len(),
        0 <= k < obsolete(
            clean_paths(ranked(clean_segments(candidates, candidates.len() as int))).take(count),
            compacted,
            count,
        ).len(),
    ensures
        ({
            let removed = obsolete(
                clean_paths(ranked(clean_segments(candidates, candidates.len() as int))).take(
                    count,
                ),
                compacted,
                count,
            )[k];
            &&& removed@ != compacted
            &&& exists|j: int|
                0 <= j < candidates.len() && (#[trigger] candidates[j]).path == removed
                    && candidates[j].tail == JournalTail::Clean
        }),
{
    broadcast use vstd::seq_lib::group_to_multiset_ensures;

    let clean = clean_segments(candidates, candidates.len() as int);
    ranked_is_an_ordering(clean);
    let sources = clean_paths(ranked(clean)).take(count);
    lemma_obsolete(sources, compacted, count, k);
    let removed = obsolete(sources, compacted, count)[k];
    let m = choose|m: int| 0 <= m < sources.len() && sources[m] == removed;
    let c = ranked(clean)[m];
    assert(c.path == removed);
    assert(ranked(clean).contains(c));
    assert(ranked(clean).to_multiset().count(c) > 0);
    assert(clean.contains(c));
    lemma_clean_segment(candidates, candidates.len() as int, c);
}

} // verus!
