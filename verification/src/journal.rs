//! Recovering the command journal after a crash.
//!
//! Segments are read and records are decoded, applied and hydrated outside this
//! crate. Here it is decided which records extend a checkpoint, in what order.

use std::sync::Arc;

use vstd::prelude::*;
use vstd::string::*;

use crate::command::AssetId;
use crate::live_project::{AssetEffect, CommandJournalRecord};
use crate::text::{append_decimal, decimal, optional_text, owned};

verus! {

/// What a diagnostic of the journal is about.
#[derive(Clone, Copy, Debug, PartialEq, Eq, Structural)]
pub enum ProjectJournalDiagnosticKind {
    Encoding,
    Persistence,
    Superseded,
    Recovery,
}

/// Something to tell the user about the journal.
#[derive(Debug, PartialEq, Eq)]
pub struct ProjectJournalDiagnostic {
    pub kind: ProjectJournalDiagnosticKind,
    pub message: String,
    pub path: Option<String>,
}

/// What a diagnostic holds.
pub struct JournalNote {
    pub kind: ProjectJournalDiagnosticKind,
    pub message: Seq<char>,
    pub path: Option<Seq<char>>,
}

impl View for ProjectJournalDiagnostic {
    type V = JournalNote;

    open spec fn view(&self) -> JournalNote {
        JournalNote { kind: self.kind, message: self.message@, path: optional_text(self.path) }
    }
}

impl Clone for ProjectJournalDiagnostic {
    fn clone(&self) -> (r: Self)
        ensures
            r == *self,
    {
        ProjectJournalDiagnostic {
            kind: self.kind,
            message: self.message.clone(),
            path: crate::text::copy_optional_text(&self.path),
        }
    }
}

/// What a list of diagnostics holds.
pub open spec fn notes(list: Seq<ProjectJournalDiagnostic>) -> Seq<JournalNote> {
    list.map_values(|d: ProjectJournalDiagnostic| d@)
}

/// A verified frame, decoded where that was possible.
#[derive(Debug, PartialEq, Eq)]
pub struct VerifiedFrame {
    pub sequence: u64,
    pub resulting_revision: u64,
    pub record: Result<Arc<CommandJournalRecord>, String>,
}

/// The verified part of a segment.
#[derive(Debug, PartialEq, Eq)]
pub struct VerifiedSegment {
    pub valid_bytes: u64,
    /// What was rejected behind the verified part, in words; none if nothing.
    pub rejected_tail: Option<String>,
    pub frames: Vec<VerifiedFrame>,
}

/// A segment as it was read.
#[derive(Debug, PartialEq, Eq)]
pub struct JournalSegment {
    pub path: String,
    pub content: Result<VerifiedSegment, String>,
}

/// A record and the segment it was first found in.
#[derive(Debug, PartialEq, Eq)]
pub struct JournalEntry {
    pub record: Arc<CommandJournalRecord>,
    pub path: String,
}

/// What an entry holds.
pub struct EntryView {
    pub record: Arc<CommandJournalRecord>,
    pub path: Seq<char>,
}

impl View for JournalEntry {
    type V = EntryView;

    open spec fn view(&self) -> EntryView {
        EntryView { record: self.record, path: self.path@ }
    }
}

/// What a list of entries holds.
pub open spec fn entry_views(list: Seq<JournalEntry>) -> Seq<EntryView> {
    list.map_values(|e: JournalEntry| e@)
}

/// What is known of the records while segments are read.
pub struct Collected {
    pub entries: Seq<EntryView>,
    /// Sequence numbers that came with different records.
    pub conflicts: Seq<u64>,
    pub notes: Seq<JournalNote>,
}

/// Nothing was read yet.
pub open spec fn nothing_collected() -> Collected {
    Collected { entries: Seq::empty(), conflicts: Seq::empty(), notes: Seq::empty() }
}

/// The index of the entry with a sequence number, from `i` on.
pub open spec fn entry_at(entries: Seq<EntryView>, sequence: u64, i: int) -> Option<int>
    decreases entries.len() - i,
{
    if i < 0 || i >= entries.len() {
        None
    } else if entries[i].record.sequence == sequence {
        Some(i)
    } else {
        entry_at(entries, sequence, i + 1)
    }
}

/// A note about recovery at a segment.
pub open spec fn recovery_note(message: Seq<char>, path: Seq<char>) -> JournalNote {
    JournalNote { kind: ProjectJournalDiagnosticKind::Recovery, message, path: Some(path) }
}

/// What is known after one more decoded frame. The first record with a sequence
/// number stays; a different one with the same number rules the number out.
pub open spec fn collect_record(
    state: Collected,
    path: Seq<char>,
    decoded: Result<Arc<CommandJournalRecord>, String>,
) -> Collected {
    match decoded {
        Err(error) => Collected {
            notes: state.notes.push(
                JournalNote {
                    kind: ProjectJournalDiagnosticKind::Encoding,
                    message: "decoding project journal record failed: "@ + error@,
                    path: Some(path),
                },
            ),
            ..state
        },
        Ok(record) => if state.conflicts.contains(record.sequence) {
            state
        } else {
            match entry_at(state.entries, record.sequence, 0) {
                None => Collected { entries: state.entries.push(EntryView { record, path }), ..state },
                Some(i) => if state.entries[i].record@ == record@ {
                    state
                } else {
                    Collected {
                        entries: state.entries.remove(i),
                        conflicts: state.conflicts.push(record.sequence),
                        notes: state.notes.push(
                            recovery_note(
                                "journal sequence "@ + decimal(record.sequence as nat)
                                    + " conflicts with "@ + state.entries[i].path,
                                path,
                            ),
                        ),
                    }
                },
            }
        },
    }
}

/// What is known after the first `i` frames of a segment.
pub open spec fn collect_records(
    state: Collected,
    path: Seq<char>,
    frames: Seq<VerifiedFrame>,
    i: int,
) -> Collected
    decreases i,
{
    if i <= 0 {
        state
    } else {
        collect_record(collect_records(state, path, frames, i - 1), path, frames[i - 1].record)
    }
}

/// The note about a segment that could not be read.
pub open spec fn unread_note(segment: JournalSegment, error: Seq<char>) -> JournalNote {
    recovery_note("reading project journal failed: "@ + error, segment.path@)
}

/// The notes about what was rejected in a segment.
pub open spec fn tail_notes(segment: JournalSegment, content: VerifiedSegment) -> Seq<JournalNote> {
    match content.rejected_tail {
        None => Seq::empty(),
        Some(tail) => seq![
            recovery_note(
                "project journal has a rejected tail after "@ + decimal(content.valid_bytes as nat)
                    + " verified byte(s): "@ + tail@,
                segment.path@,
            ),
        ],
    }
}

/// What is known after one more segment.
pub open spec fn collect_segment(state: Collected, segment: JournalSegment) -> Collected {
    match segment.content {
        Err(error) => Collected {
            notes: state.notes.push(unread_note(segment, error@)),
            ..state
        },
        Ok(content) => collect_records(
            Collected { notes: state.notes + tail_notes(segment, content), ..state },
            segment.path@,
            content.frames@,
            content.frames@.len() as int,
        ),
    }
}

/// What is known after the first `i` segments.
pub open spec fn collected(segments: Seq<JournalSegment>, i: int) -> Collected
    decreases i,
{
    if i <= 0 {
        nothing_collected()
    } else {
        collect_segment(collected(segments, i - 1), segments[i - 1])
    }
}

/// The greatest sequence number among the first `i` entries that lead to a
/// revision.
pub open spec fn anchor(entries: Seq<EntryView>, revision: u64, i: int) -> Option<u64>
    decreases i,
{
    if i <= 0 {
        None
    } else {
        let before = anchor(entries, revision, i - 1);
        let record = entries[i - 1].record;
        if record.resulting_revision != revision {
            before
        } else {
            match before {
                Some(sequence) => Some(
                    if sequence < record.sequence {
                        record.sequence
                    } else {
                        sequence
                    },
                ),
                None => Some(record.sequence),
            }
        }
    }
}

/// The sequence number after an optional one, if there is one.
pub open spec fn next_sequence(sequence: Option<u64>) -> Option<u64> {
    match sequence {
        Some(s) => if s == u64::MAX {
            None
        } else {
            Some((s + 1) as u64)
        },
        None => None,
    }
}

/// The index of the entry with the least sequence number among the first `i` that
/// start from a revision.
pub open spec fn earliest(entries: Seq<EntryView>, revision: u64, i: int) -> Option<int>
    decreases i,
{
    if i <= 0 {
        None
    } else {
        let before = earliest(entries, revision, i - 1);
        if entries[i - 1].record.base_revision != revision {
            before
        } else {
            match before {
                Some(k) => if entries[i - 1].record.sequence < entries[k].record.sequence {
                    Some(i - 1)
                } else {
                    Some(k)
                },
                None => Some(i - 1),
            }
        }
    }
}

/// The entry that comes next: the one with the expected number, or the earliest
/// where none is expected; either must start from the current revision.
pub open spec fn next_entry(
    entries: Seq<EntryView>,
    expected: Option<u64>,
    revision: u64,
) -> Option<int> {
    match expected {
        Some(sequence) => match entry_at(entries, sequence, 0) {
            Some(i) => if entries[i].record.base_revision == revision {
                Some(i)
            } else {
                None
            },
            None => None,
        },
        None => earliest(entries, revision, entries.len() as int),
    }
}

/// The assets that the first `i` commands of a record leave present.
pub open spec fn present_assets(effects: Seq<AssetEffect>, i: int) -> Seq<AssetId>
    decreases i,
{
    if i <= 0 {
        Seq::empty()
    } else {
        let before = present_assets(effects, i - 1);
        match effects[i - 1] {
            AssetEffect::Put { asset, present: true } => before.push(asset),
            AssetEffect::Availability { asset, present: true } => before.push(asset),
            _ => before,
        }
    }
}

/// The first of some assets, from index `i` on, that was not hydrated.
pub open spec fn missing_asset(assets: Seq<AssetId>, hydrated: Seq<AssetId>, i: int) -> Option<
    AssetId,
>
    decreases assets.len() - i,
{
    if i < 0 || i >= assets.len() {
        None
    } else if !hydrated.contains(assets[i]) {
        Some(assets[i])
    } else {
        missing_asset(assets, hydrated, i + 1)
    }
}

/// What recovering the journal came to.
#[derive(Debug, PartialEq, Eq)]
pub struct PreparedJournalRecovery {
    /// Whether replaying was asked for.
    pub requested: bool,
    pub from_revision: u64,
    /// The sequence number that the checkpoint stands at, where it is known.
    pub anchor_sequence: Option<u64>,
    pub records: Vec<Arc<CommandJournalRecord>>,
    pub diagnostics: Vec<ProjectJournalDiagnostic>,
}

/// Recovery of the journal, record by record.
pub struct JournalRecovery {
    pub from_revision: u64,
    pub anchor_sequence: Option<u64>,
    entries: Vec<JournalEntry>,
    expected_sequence: Option<u64>,
    revision: u64,
    records: Vec<Arc<CommandJournalRecord>>,
    diagnostics: Vec<ProjectJournalDiagnostic>,
    stopped: bool,
}

/// What a recovery holds.
pub struct RecoveryView {
    pub from_revision: u64,
    pub anchor_sequence: Option<u64>,
    pub entries: Seq<EntryView>,
    pub expected_sequence: Option<u64>,
    pub revision: u64,
    pub records: Seq<Arc<CommandJournalRecord>>,
    pub notes: Seq<JournalNote>,
    pub stopped: bool,
}

impl View for JournalRecovery {
    type V = RecoveryView;

    closed spec fn view(&self) -> RecoveryView {
        RecoveryView {
            from_revision: self.from_revision,
            anchor_sequence: self.anchor_sequence,
            entries: entry_views(self.entries@),
            expected_sequence: self.expected_sequence,
            revision: self.revision,
            records: self.records@,
            notes: notes(self.diagnostics@),
            stopped: self.stopped,
        }
    }
}

/// A recovery before its first record.
pub open spec fn begun(from_revision: u64, segments: Seq<JournalSegment>) -> RecoveryView {
    let state = collected(segments, segments.len() as int);
    let anchored = anchor(state.entries, from_revision, state.entries.len() as int);
    RecoveryView {
        from_revision,
        anchor_sequence: anchored,
        entries: state.entries,
        expected_sequence: next_sequence(anchored),
        revision: from_revision,
        records: Seq::empty(),
        notes: state.notes,
        stopped: false,
    }
}

/// The entry that a recovery takes next.
pub open spec fn pending_entry(state: RecoveryView) -> Option<int> {
    if state.stopped {
        None
    } else {
        next_entry(state.entries, state.expected_sequence, state.revision)
    }
}

/// A recovery after its next record was tried: it stops at a record that does not
/// apply, or whose assets could not be hydrated.
pub open spec fn advanced(
    state: RecoveryView,
    applied: Result<(), String>,
    hydrated: Seq<AssetId>,
) -> RecoveryView {
    match pending_entry(state) {
        None => RecoveryView { stopped: true, ..state },
        Some(i) => {
            let entry = state.entries[i];
            let record = entry.record;
            let needed = present_assets(record.effects@, record.effects@.len() as int);
            match applied {
                Err(error) => RecoveryView {
                    notes: state.notes.push(
                        recovery_note(
                            "journal record "@ + decimal(record.sequence as nat)
                                + " does not apply to the selected checkpoint: "@ + error@,
                            entry.path,
                        ),
                    ),
                    stopped: true,
                    ..state
                },
                Ok(_) => match missing_asset(needed, hydrated, 0) {
                    Some(asset) => RecoveryView {
                        notes: state.notes.push(
                            recovery_note(
                                "journal record "@ + decimal(record.sequence as nat)
                                    + " creates present asset "@ + decimal(asset.0 as nat)
                                    + " but its exact PCM could not be rematerialized"@,
                                entry.path,
                            ),
                        ),
                        stopped: true,
                        ..state
                    },
                    None => RecoveryView {
                        expected_sequence: next_sequence(Some(record.sequence)),
                        revision: record.resulting_revision,
                        records: state.records.push(record),
                        ..state
                    },
                },
            }
        },
    }
}

// ----- collecting ---------------------------------------------------------

fn holds_number(list: &Vec<u64>, number: u64) -> (r: bool)
    ensures
        r == list@.contains(number),
{
    let mut i: usize = 0;
    while i < list.len()
        invariant
            i <= list.len(),
            forall|k: int| 0 <= k < i ==> list@[k] != number,
        decreases list.len() - i,
    {
        if list[i] == number {
            assert(list@[i as int] == number);
            return true;
        }
        i = i + 1;
    }
    false
}

fn find_entry(entries: &Vec<JournalEntry>, sequence: u64) -> (r: Option<usize>)
    ensures
        match r {
            Some(i) => entry_at(entry_views(entries@), sequence, 0) == Some(i as int) && i
                < entries@.len(),
            None => entry_at(entry_views(entries@), sequence, 0) is None,
        },
{
    let ghost views = entry_views(entries@);
    let mut i: usize = 0;
    while i < entries.len()
        invariant
            i <= entries.len(),
            views == entry_views(entries@),
            entry_at(views, sequence, 0) == entry_at(views, sequence, i as int),
        decreases entries.len() - i,
    {
        assert(views[i as int] == entries@[i as int]@);
        if entries[i].record.sequence == sequence {
            return Some(i);
        }
        i = i + 1;
    }
    None
}

struct Collection {
    entries: Vec<JournalEntry>,
    conflicts: Vec<u64>,
    diagnostics: Vec<ProjectJournalDiagnostic>,
}

impl View for Collection {
    type V = Collected;

    closed spec fn view(&self) -> Collected {
        Collected {
            entries: entry_views(self.entries@),
            conflicts: self.conflicts@,
            notes: notes(self.diagnostics@),
        }
    }
}

fn note(
    diagnostics: &mut Vec<ProjectJournalDiagnostic>,
    kind: ProjectJournalDiagnosticKind,
    message: String,
    path: &String,
)
    ensures
        notes(final(diagnostics)@) == notes(old(diagnostics)@).push(
            JournalNote { kind, message: message@, path: Some(path@) },
        ),
{
    let ghost before = notes(diagnostics@);
    let diagnostic = ProjectJournalDiagnostic { kind, message, path: Some(path.clone()) };
    diagnostics.push(diagnostic);
    assert(notes(diagnostics@) =~= before.push(diagnostic@));
}

fn take_record(
    state: &mut Collection,
    path: &String,
    decoded: &Result<Arc<CommandJournalRecord>, String>,
)
    ensures
        final(state)@ == collect_record(old(state)@, path@, *decoded),
{
    let ghost before = state@;
    match decoded {
        Err(error) => {
            let mut message = owned("decoding project journal record failed: ");
            message.append(error.as_str());
            note(
                &mut state.diagnostics,
                ProjectJournalDiagnosticKind::Encoding,
                message,
                path,
            );
        },
        Ok(record) => {
            if !holds_number(&state.conflicts, record.sequence) {
                match find_entry(&state.entries, record.sequence) {
                    None => {
                        let entry = JournalEntry { record: record.clone(), path: path.clone() };
                        state.entries.push(entry);
                        assert(entry_views(state.entries@) =~= before.entries.push(entry@));
                    },
                    Some(i) => {
                        assert(before.entries[i as int] == state.entries@[i as int]@);
                        if !state.entries[i].record.same(record) {
                            let removed = state.entries.remove(i);
                            assert(entry_views(state.entries@) =~= before.entries.remove(i as int));
                            state.conflicts.push(record.sequence);
                            let mut message = owned("journal sequence ");
                            append_decimal(&mut message, record.sequence);
                            message.append(" conflicts with ");
                            message.append(removed.path.as_str());
                            note(
                                &mut state.diagnostics,
                                ProjectJournalDiagnosticKind::Recovery,
                                message,
                                path,
                            );
                        }
                    },
                }
            }
        },
    }
}

fn take_segment(state: &mut Collection, segment: &JournalSegment)
    ensures
        final(state)@ == collect_segment(old(state)@, *segment),
{
    let ghost before = state@;
    match &segment.content {
        Err(error) => {
            let mut message = owned("reading project journal failed: ");
            message.append(error.as_str());
            note(
                &mut state.diagnostics,
                ProjectJournalDiagnosticKind::Recovery,
                message,
                &segment.path,
            );
        },
        Ok(content) => {
            match &content.rejected_tail {
                None => {
                    assert(before.notes + tail_notes(*segment, *content) =~= before.notes);
                },
                Some(tail) => {
                    let mut message = owned("project journal has a rejected tail after ");
                    append_decimal(&mut message, content.valid_bytes);
                    message.append(" verified byte(s): ");
                    message.append(tail.as_str());
                    note(
                        &mut state.diagnostics,
                        ProjectJournalDiagnosticKind::Recovery,
                        message,
                        &segment.path,
                    );
                    assert(state@.notes =~= before.notes + tail_notes(*segment, *content));
                },
            }
            let ghost start = state@;
            let frames = &content.frames;
            let mut i: usize = 0;
            while i < frames.len()
                invariant
                    i <= frames.len(),
                    state@ == collect_records(start, segment.path@, frames@, i as int),
                decreases frames.len() - i,
            {
                take_record(state, &segment.path, &frames[i].record);
                i = i + 1;
            }
        },
    }
}

fn collect(segments: &Vec<JournalSegment>) -> (r: Collection)
    ensures
        r@ == collected(segments@, segments@.len() as int),
{
    let mut state = Collection {
        entries: Vec::new(),
        conflicts: Vec::new(),
        diagnostics: Vec::new(),
    };
    assert(state@.entries =~= Seq::empty());
    assert(state@.conflicts =~= Seq::empty());
    assert(state@.notes =~= Seq::empty());
    let mut i: usize = 0;
    while i < segments.len()
        invariant
            i <= segments.len(),
            state@ == collected(segments@, i as int),
        decreases segments.len() - i,
    {
        take_segment(&mut state, &segments[i]);
        i = i + 1;
    }
    state
}

fn find_anchor(entries: &Vec<JournalEntry>, revision: u64) -> (r: Option<u64>)
    ensures
        r == anchor(entry_views(entries@), revision, entries@.len() as int),
{
    let ghost views = entry_views(entries@);
    let mut found: Option<u64> = None;
    let mut i: usize = 0;
    while i < entries.len()
        invariant
            i <= entries.len(),
            views == entry_views(entries@),
            found == anchor(views, revision, i as int),
        decreases entries.len() - i,
    {
        assert(views[i as int] == entries@[i as int]@);
        let record = &entries[i].record;
        if record.resulting_revision == revision {
            found = match found {
                Some(sequence) => Some(
                    if sequence < record.sequence {
                        record.sequence
                    } else {
                        sequence
                    },
                ),
                None => Some(record.sequence),
            };
        }
        i = i + 1;
    }
    found
}

fn find_earliest(entries: &Vec<JournalEntry>, revision: u64) -> (r: Option<usize>)
    ensures
        match r {
            Some(k) => earliest(entry_views(entries@), revision, entries@.len() as int) == Some(
                k as int,
            ) && k < entries@.len(),
            None => earliest(entry_views(entries@), revision, entries@.len() as int) is None,
        },
{
    let ghost views = entry_views(entries@);
    let mut found: Option<usize> = None;
    let mut i: usize = 0;
    while i < entries.len()
        invariant
            i <= entries.len(),
            views == entry_views(entries@),
            match found {
                Some(k) => earliest(views, revision, i as int) == Some(k as int) && k < i,
                None => earliest(views, revision, i as int) is None,
            },
        decreases entries.len() - i,
    {
        assert(views[i as int] == entries@[i as int]@);
        if entries[i].record.base_revision == revision {
            found = match found {
                Some(k) => {
                    assert(views[k as int] == entries@[k as int]@);
                    if entries[i].record.sequence < entries[k].record.sequence {
                        Some(i)
                    } else {
                        Some(k)
                    }
                },
                None => Some(i),
            };
        }
        i = i + 1;
    }
    found
}

fn following_sequence(sequence: Option<u64>) -> (r: Option<u64>)
    ensures
        r == next_sequence(sequence),
{
    match sequence {
        Some(s) => if s == u64::MAX {
            None
        } else {
            Some(s + 1)
        },
        None => None,
    }
}

fn list_present(effects: &Vec<AssetEffect>) -> (r: Vec<AssetId>)
    ensures
        r@ == present_assets(effects@, effects@.len() as int),
{
    let mut out: Vec<AssetId> = Vec::new();
    let mut i: usize = 0;
    while i < effects.len()
        invariant
            i <= effects.len(),
            out@ == present_assets(effects@, i as int),
        decreases effects.len() - i,
    {
        match effects[i] {
            AssetEffect::Put { asset, present: true } => {
                out.push(asset);
            },
            AssetEffect::Availability { asset, present: true } => {
                out.push(asset);
            },
            _ => {},
        }
        i = i + 1;
    }
    out
}

fn holds_asset(list: &Vec<AssetId>, asset: AssetId) -> (r: bool)
    ensures
        r == list@.contains(asset),
{
    let mut i: usize = 0;
    while i < list.len()
        invariant
            i <= list.len(),
            forall|k: int| 0 <= k < i ==> list@[k] != asset,
        decreases list.len() - i,
    {
        if list[i] == asset {
            assert(list@[i as int] == asset);
            return true;
        }
        i = i + 1;
    }
    false
}

fn find_missing(assets: &Vec<AssetId>, hydrated: &Vec<AssetId>) -> (r: Option<AssetId>)
    ensures
        r == missing_asset(assets@, hydrated@, 0),
{
    let mut i: usize = 0;
    while i < assets.len()
        invariant
            i <= assets.len(),
            missing_asset(assets@, hydrated@, 0) == missing_asset(assets@, hydrated@, i as int),
        decreases assets.len() - i,
    {
        if !holds_asset(hydrated, assets[i]) {
            return Some(assets[i]);
        }
        i = i + 1;
    }
    None
}

// ----- recovering ---------------------------------------------------------

/// The greatest sequence number among the first `i` frames that lead to a
/// revision.
pub open spec fn cursor_in(
    frames: Seq<VerifiedFrame>,
    revision: u64,
    start: Option<u64>,
    i: int,
) -> Option<u64>
    decreases i,
{
    if i <= 0 {
        start
    } else {
        let before = cursor_in(frames, revision, start, i - 1);
        let frame = frames[i - 1];
        if frame.resulting_revision != revision {
            before
        } else {
            match before {
                Some(sequence) => Some(
                    if sequence < frame.sequence {
                        frame.sequence
                    } else {
                        sequence
                    },
                ),
                None => Some(frame.sequence),
            }
        }
    }
}

/// The greatest sequence number in the first `i` segments that leads to a
/// revision.
pub open spec fn cursor_of(segments: Seq<JournalSegment>, revision: u64, i: int) -> Option<u64>
    decreases i,
{
    if i <= 0 {
        None
    } else {
        let before = cursor_of(segments, revision, i - 1);
        match segments[i - 1].content {
            Err(_) => before,
            Ok(content) => cursor_in(
                content.frames@,
                revision,
                before,
                content.frames@.len() as int,
            ),
        }
    }
}

/// The notes about the first `i` segments as such.
pub open spec fn segment_notes(segments: Seq<JournalSegment>, i: int) -> Seq<JournalNote>
    decreases i,
{
    if i <= 0 {
        Seq::empty()
    } else {
        let before = segment_notes(segments, i - 1);
        match segments[i - 1].content {
            Err(error) => before.push(unread_note(segments[i - 1], error@)),
            Ok(content) => before + tail_notes(segments[i - 1], content),
        }
    }
}

/// Finds where a checkpoint stands in the journal, without replaying anything.
pub fn discover_journal_cursor(revision: u64, segments: &Vec<JournalSegment>) -> (r:
    PreparedJournalRecovery)
    ensures
        !r.requested,
        r.from_revision == revision,
        r.anchor_sequence == cursor_of(segments@, revision, segments@.len() as int),
        r.records@ == Seq::<Arc<CommandJournalRecord>>::empty(),
        notes(r.diagnostics@) == segment_notes(segments@, segments@.len() as int),
{
    let mut found: Option<u64> = None;
    let mut diagnostics: Vec<ProjectJournalDiagnostic> = Vec::new();
    let mut i: usize = 0;
    assert(notes(diagnostics@) =~= Seq::<JournalNote>::empty());
    while i < segments.len()
        invariant
            i <= segments.len(),
            found == cursor_of(segments@, revision, i as int),
            notes(diagnostics@) == segment_notes(segments@, i as int),
        decreases segments.len() - i,
    {
        let segment = &segments[i];
        let ghost told = notes(diagnostics@);
        match &segment.content {
            Err(error) => {
                let mut message = owned("reading project journal failed: ");
                message.append(error.as_str());
                note(
                    &mut diagnostics,
                    ProjectJournalDiagnosticKind::Recovery,
                    message,
                    &segment.path,
                );
            },
            Ok(content) => {
                match &content.rejected_tail {
                    None => {
                        assert(told + tail_notes(*segment, *content) =~= told);
                    },
                    Some(tail) => {
                        let mut message = owned("project journal has a rejected tail after ");
                        append_decimal(&mut message, content.valid_bytes);
                        message.append(" verified byte(s): ");
                        message.append(tail.as_str());
                        note(
                            &mut diagnostics,
                            ProjectJournalDiagnosticKind::Recovery,
                            message,
                            &segment.path,
                        );
                        assert(notes(diagnostics@) =~= told + tail_notes(*segment, *content));
                    },
                }
                let frames = &content.frames;
                let ghost start = found;
                let mut k: usize = 0;
                while k < frames.len()
                    invariant
                        k <= frames.len(),
                        found == cursor_in(frames@, revision, start, k as int),
                    decreases frames.len() - k,
                {
                    let frame = &frames[k];
                    if frame.resulting_revision == revision {
                        found = match found {
                            Some(sequence) => Some(
                                if sequence < frame.sequence {
                                    frame.sequence
                                } else {
                                    sequence
                                },
                            ),
                            None => Some(frame.sequence),
                        };
                    }
                    k = k + 1;
                }
            },
        }
        i = i + 1;
    }
    PreparedJournalRecovery {
        requested: false,
        from_revision: revision,
        anchor_sequence: found,
        records: Vec::new(),
        diagnostics,
    }
}

/// What a recovery came to.
pub open spec fn is_recovered(journal: PreparedJournalRecovery, state: RecoveryView) -> bool {
    &&& journal.requested
    &&& journal.from_revision == state.from_revision
    &&& journal.anchor_sequence == state.anchor_sequence
    &&& journal.records@ == state.records
    &&& notes(journal.diagnostics@) == state.notes
}

impl JournalRecovery {
    /// Starts recovering the records that extend a checkpoint.
    pub fn begin(from_revision: u64, segments: &Vec<JournalSegment>) -> (r: JournalRecovery)
        ensures
            r@ == begun(from_revision, segments@),
    {
        let state = collect(segments);
        let anchor_sequence = find_anchor(&state.entries, from_revision);
        let records: Vec<Arc<CommandJournalRecord>> = Vec::new();
        assert(records@ =~= Seq::<Arc<CommandJournalRecord>>::empty());
        assert(entry_views(state.entries@).len() == state.entries@.len());
        JournalRecovery {
            from_revision,
            anchor_sequence,
            entries: state.entries,
            expected_sequence: following_sequence(anchor_sequence),
            revision: from_revision,
            records,
            diagnostics: state.diagnostics,
            stopped: false,
        }
    }

    fn pending(&self) -> (r: Option<usize>)
        ensures
            match r {
                Some(i) => pending_entry(self@) == Some(i as int) && i < self.entries@.len(),
                None => pending_entry(self@) is None,
            },
    {
        assert(entry_views(self.entries@).len() == self.entries@.len());
        if self.stopped {
            return None;
        }
        match self.expected_sequence {
            Some(sequence) => match find_entry(&self.entries, sequence) {
                Some(i) => {
                    assert(entry_views(self.entries@)[i as int] == self.entries@[i as int]@);
                    if self.entries[i].record.base_revision == self.revision {
                        Some(i)
                    } else {
                        None
                    }
                },
                None => None,
            },
            None => find_earliest(&self.entries, self.revision),
        }
    }

    /// The record to apply next.
    pub fn next_record(&self) -> (r: Option<Arc<CommandJournalRecord>>)
        ensures
            r == match pending_entry(self@) {
                Some(i) => Some(self@.entries[i].record),
                None => None,
            },
    {
        match self.pending() {
            Some(i) => {
                assert(entry_views(self.entries@)[i as int] == self.entries@[i as int]@);
                Some(self.entries[i].record.clone())
            },
            None => None,
        }
    }

    /// The assets whose samples the next record needs.
    pub fn needed_assets(&self) -> (r: Vec<AssetId>)
        ensures
            r@ == match pending_entry(self@) {
                Some(i) => present_assets(
                    self@.entries[i].record.effects@,
                    self@.entries[i].record.effects@.len() as int,
                ),
                None => Seq::<AssetId>::empty(),
            },
    {
        match self.pending() {
            Some(i) => {
                assert(entry_views(self.entries@)[i as int] == self.entries@[i as int]@);
                list_present(&self.entries[i].record.effects)
            },
            None => Vec::new(),
        }
    }

    /// Takes the next record, given how applying it went and which assets were
    /// hydrated after it.
    pub fn advance(&mut self, applied: Result<(), String>, hydrated: &Vec<AssetId>)
        ensures
            final(self)@ == advanced(old(self)@, applied, hydrated@),
    {
        let ghost before = self@;
        let i = match self.pending() {
            Some(i) => i,
            None => {
                self.stopped = true;
                return;
            },
        };
        assert(before.entries[i as int] == self.entries@[i as int]@);
        let record = self.entries[i].record.clone();
        let path = self.entries[i].path.clone();
        match applied {
            Err(error) => {
                let mut message = owned("journal record ");
                append_decimal(&mut message, record.sequence);
                message.append(" does not apply to the selected checkpoint: ");
                message.append(error.as_str());
                note(
                    &mut self.diagnostics,
                    ProjectJournalDiagnosticKind::Recovery,
                    message,
                    &path,
                );
                self.stopped = true;
            },
            Ok(()) => {
                let needed = list_present(&record.effects);
                match find_missing(&needed, hydrated) {
                    Some(asset) => {
                        let mut message = owned("journal record ");
                        append_decimal(&mut message, record.sequence);
                        message.append(" creates present asset ");
                        append_decimal(&mut message, asset.0);
                        message.append(" but its exact PCM could not be rematerialized");
                        note(
                            &mut self.diagnostics,
                            ProjectJournalDiagnosticKind::Recovery,
                            message,
                            &path,
                        );
                        self.stopped = true;
                    },
                    None => {
                        self.expected_sequence = following_sequence(Some(record.sequence));
                        self.revision = record.resulting_revision;
                        self.records.push(record);
                    },
                }
            },
        }
    }

    /// What recovering came to.
    pub fn finish(self) -> (r: PreparedJournalRecovery)
        ensures
            is_recovered(r, self@),
    {
        PreparedJournalRecovery {
            requested: true,
            from_revision: self.from_revision,
            anchor_sequence: self.anchor_sequence,
            records: self.records,
            diagnostics: self.diagnostics,
        }
    }
}

/// How replaying a record went: whether it applied, and which assets had samples
/// afterwards.
#[derive(Debug, PartialEq, Eq)]
pub struct RecordOutcome {
    pub applied: Result<(), String>,
    pub hydrated: Vec<AssetId>,
}

/// A recovery after the first `i` outcomes.
pub open spec fn advanced_by(state: RecoveryView, outcomes: Seq<RecordOutcome>, i: int) ->
    RecoveryView
    decreases i,
{
    if i <= 0 {
        state
    } else {
        advanced(
            advanced_by(state, outcomes, i - 1),
            outcomes[i - 1].applied,
            outcomes[i - 1].hydrated@,
        )
    }
}

/// Recovers the records that extend a checkpoint, given how replaying each of them
/// in turn went. Outcomes beyond the last record change nothing.
pub fn prepare_journal_recovery(
    from_revision: u64,
    segments: &Vec<JournalSegment>,
    outcomes: &Vec<RecordOutcome>,
) -> (r: PreparedJournalRecovery)
    ensures
        is_recovered(
            r,
            advanced_by(begun(from_revision, segments@), outcomes@, outcomes@.len() as int),
        ),
{
    let mut recovery = JournalRecovery::begin(from_revision, segments);
    let ghost start = recovery@;
    let mut i: usize = 0;
    while i < outcomes.len()
        invariant
            i <= outcomes.len(),
            recovery@ == advanced_by(start, outcomes@, i as int),
        decreases outcomes.len() - i,
    {
        let applied = match &outcomes[i].applied {
            Ok(()) => Ok(()),
            Err(message) => Err(message.clone()),
        };
        recovery.advance(applied, &outcomes[i].hydrated);
        i = i + 1;
    }
    recovery.finish()
}

// ----- laws -------------------------------------------------------------

/// Whether record `i + 1` goes on where record `i` ended.
pub open spec fn record_goes_on(records: Seq<Arc<CommandJournalRecord>>, i: int) -> bool {
    &&& records[i + 1].base_revision == records[i].resulting_revision
    &&& records[i].sequence < u64::MAX ==> records[i + 1].sequence == records[i].sequence + 1
}

/// The records of a recovery form one history from the checkpoint: each starts
/// where the one before it ended, and the current revision is where the last one
/// ended.
pub open spec fn connected(state: RecoveryView) -> bool {
    let records = state.records;
    &&& records.len() == 0 ==> state.revision == state.from_revision
    &&& records.len() > 0 ==> records[0].base_revision == state.from_revision && state.revision
        == records.last().resulting_revision && state.expected_sequence == next_sequence(
        Some(records.last().sequence),
    )
    &&& forall|i: int| 0 <= i < records.len() - 1 ==> #[trigger] record_goes_on(records, i)
}

proof fn lemma_entry_at(entries: Seq<EntryView>, sequence: u64, i: int)
    requires
        0 <= i,
    ensures
        match entry_at(entries, sequence, i) {
            Some(k) => i <= k < entries.len() && entries[k].record.sequence == sequence,
            None => true,
        },
    decreases entries.len() - i,
{
    if i < entries.len() && entries[i].record.sequence != sequence {
        lemma_entry_at(entries, sequence, i + 1);
    }
}

proof fn lemma_earliest(entries: Seq<EntryView>, revision: u64, i: int)
    requires
        0 <= i <= entries.len(),
    ensures
        match earliest(entries, revision, i) {
            Some(k) => 0 <= k < i && entries[k].record.base_revision == revision,
            None => true,
        },
    decreases i,
{
    if i > 0 {
        lemma_earliest(entries, revision, i - 1);
    }
}

/// A recovery begins with a connected history, and every step keeps it.
pub proof fn recovery_follows_one_history(
    state: RecoveryView,
    applied: Result<(), String>,
    hydrated: Seq<AssetId>,
)
    requires
        connected(state),
    ensures
        connected(advanced(state, applied, hydrated)),
{
    let after = advanced(state, applied, hydrated);
    match state.expected_sequence {
        Some(sequence) => {
            lemma_entry_at(state.entries, sequence, 0);
        },
        None => {
            lemma_earliest(state.entries, state.revision, state.entries.len() as int);
        },
    }
    if after.records != state.records {
        let i = pending_entry(state)->0;
        let record = state.entries[i].record;
        assert(after.records == state.records.push(record));
        assert(record.base_revision == state.revision);
        assert forall|k: int| 0 <= k < after.records.len() - 1 implies #[trigger] record_goes_on(
            after.records,
            k,
        ) by {
            if k < state.records.len() - 1 {
                assert(record_goes_on(state.records, k));
            }
        }
    }
}

/// The history of a recovery that has not taken a record is connected.
pub proof fn recovery_begins_connected(from_revision: u64, segments: Seq<JournalSegment>)
    ensures
        connected(begun(from_revision, segments)),
{
}

/// The records that a recovery ends with form one history from the checkpoint on.
pub proof fn recovered_records_form_one_history(
    from_revision: u64,
    segments: Seq<JournalSegment>,
    outcomes: Seq<RecordOutcome>,
    i: int,
)
    requires
        0 <= i <= outcomes.len(),
    ensures
        connected(advanced_by(begun(from_revision, segments), outcomes, i)),
    decreases i,
{
    if i == 0 {
        recovery_begins_connected(from_revision, segments);
    } else {
        recovered_records_form_one_history(from_revision, segments, outcomes, i - 1);
        recovery_follows_one_history(
            advanced_by(begun(from_revision, segments), outcomes, i - 1),
            outcomes[i - 1].applied,
            outcomes[i - 1].hydrated@,
        );
    }
}

/// The records that the first `i` frames of a segment hold, as far as they were decoded.
pub open spec fn frame_records(frames: Seq<VerifiedFrame>, i: int) -> Seq<
    Arc<CommandJournalRecord>,
>
    decreases i,
{
    if i <= 0 {
        Seq::empty()
    } else {
        let before = frame_records(frames, i - 1);
        match frames[i - 1].record {
            Ok(record) => before.push(record),
            Err(_) => before,
        }
    }
}

/// The records that the first `i` segments hold, as far as they were read and decoded.
pub open spec fn segment_records(segments: Seq<JournalSegment>, i: int) -> Seq<
    Arc<CommandJournalRecord>,
>
    decreases i,
{
    if i <= 0 {
        Seq::empty()
    } else {
        let before = segment_records(segments, i - 1);
        match segments[i - 1].content {
            Ok(content) => before + frame_records(content.frames@, content.frames@.len() as int),
            Err(_) => before,
        }
    }
}

/// An entry stands for a record: it has the same sequence number and the same content.
spec fn stands_for(entry: EntryView, record: Arc<CommandJournalRecord>) -> bool {
    entry.record.sequence == record.sequence && entry.record@ == record@
}

/// Some entry stands for a record.
#[verifier::opaque]
spec fn has_entry_for(entries: Seq<EntryView>, record: Arc<CommandJournalRecord>) -> bool {
    exists|k: int| 0 <= k < entries.len() && stands_for(#[trigger] entries[k], record)
}

proof fn lemma_entry_for(entries: Seq<EntryView>, record: Arc<CommandJournalRecord>) -> (k: int)
    requires
        has_entry_for(entries, record),
    ensures
        0 <= k < entries.len(),
        stands_for(entries[k], record),
{
    reveal(has_entry_for);
    choose|k: int| 0 <= k < entries.len() && stands_for(#[trigger] entries[k], record)
}

proof fn lemma_has_entry_for(entries: Seq<EntryView>, record: Arc<CommandJournalRecord>, k: int)
    requires
        0 <= k < entries.len(),
        stands_for(entries[k], record),
    ensures
        has_entry_for(entries, record),
{
    reveal(has_entry_for);
}

/// What is known accounts for all records that were read: each is either ruled out by its
/// number or stood for by an entry, and each entry is the only one with its number.
spec fn accounts_for(
    entries: Seq<EntryView>,
    conflicts: Seq<u64>,
    read: Seq<Arc<CommandJournalRecord>>,
) -> bool {
    &&& forall|r: int|
        0 <= r < read.len() ==> conflicts.contains((#[trigger] read[r]).sequence) || has_entry_for(
            entries,
            read[r],
        )
    &&& forall|k: int|
        0 <= k < entries.len() ==> read.contains((#[trigger] entries[k]).record)
            && !conflicts.contains(entries[k].record.sequence)
    &&& forall|j: int, k: int|
        0 <= j < k < entries.len() ==> (#[trigger] entries[j]).record.sequence != (
        #[trigger] entries[k]).record.sequence
}

proof fn lemma_no_entry(entries: Seq<EntryView>, sequence: u64, i: int)
    requires
        0 <= i <= entries.len(),
        entry_at(entries, sequence, i) is None,
    ensures
        forall|k: int|
            i <= k < entries.len() ==> (#[trigger] entries[k]).record.sequence != sequence,
    decreases entries.len() - i,
{
    if i < entries.len() {
        lemma_no_entry(entries, sequence, i + 1);
    }
}

proof fn lemma_record_is_known(
    entries: Seq<EntryView>,
    conflicts: Seq<u64>,
    read: Seq<Arc<CommandJournalRecord>>,
    record: Arc<CommandJournalRecord>,
)
    requires
        accounts_for(entries, conflicts, read),
        conflicts.contains(record.sequence) || has_entry_for(entries, record),
    ensures
        accounts_for(entries, conflicts, read.push(record)),
{
    let now = read.push(record);
    assert forall|k: int| 0 <= k < entries.len() implies now.contains(
        (#[trigger] entries[k]).record,
    ) by {
        let r = choose|r: int| 0 <= r < read.len() && read[r] == entries[k].record;
        assert(now[r] == entries[k].record);
    }
    assert forall|r: int| 0 <= r < now.len() implies conflicts.contains(
        (#[trigger] now[r]).sequence,
    ) || has_entry_for(entries, now[r]) by {
        if r < read.len() {
            assert(now[r] == read[r]);
        }
    }
}

proof fn lemma_record_is_new(
    entries: Seq<EntryView>,
    conflicts: Seq<u64>,
    read: Seq<Arc<CommandJournalRecord>>,
    entry: EntryView,
)
    requires
        accounts_for(entries, conflicts, read),
        !conflicts.contains(entry.record.sequence),
        forall|k: int|
            0 <= k < entries.len() ==> (#[trigger] entries[k]).record.sequence
                != entry.record.sequence,
    ensures
        accounts_for(entries.push(entry), conflicts, read.push(entry.record)),
{
    let after = entries.push(entry);
    let now = read.push(entry.record);
    assert forall|k: int| 0 <= k < after.len() implies now.contains((#[trigger] after[k]).record)
        && !conflicts.contains(after[k].record.sequence) by {
        if k < entries.len() {
            assert(after[k] == entries[k]);
            let r = choose|r: int| 0 <= r < read.len() && read[r] == entries[k].record;
            assert(now[r] == entries[k].record);
        } else {
            assert(now[read.len() as int] == entry.record);
        }
    }
    assert forall|r: int| 0 <= r < now.len() implies conflicts.contains(
        (#[trigger] now[r]).sequence,
    ) || has_entry_for(after, now[r]) by {
        if r == read.len() {
            lemma_has_entry_for(after, now[r], entries.len() as int);
        } else {
            assert(now[r] == read[r]);
            if !conflicts.contains(read[r].sequence) {
                let k = lemma_entry_for(entries, read[r]);
                lemma_has_entry_for(after, now[r], k);
            }
        }
    }
    assert forall|j: int, k: int| 0 <= j < k < after.len() implies (
    #[trigger] after[j]).record.sequence != (#[trigger] after[k]).record.sequence by {
        assert(after[j] == entries[j]);
        if k < entries.len() {
            assert(after[k] == entries[k]);
        }
    }
}

proof fn lemma_record_is_disputed(
    entries: Seq<EntryView>,
    conflicts: Seq<u64>,
    read: Seq<Arc<CommandJournalRecord>>,
    record: Arc<CommandJournalRecord>,
    i: int,
)
    requires
        accounts_for(entries, conflicts, read),
        0 <= i < entries.len(),
        entries[i].record.sequence == record.sequence,
    ensures
        accounts_for(entries.remove(i), conflicts.push(record.sequence), read.push(record)),
{
    let after = entries.remove(i);
    let ruled_out = conflicts.push(record.sequence);
    let now = read.push(record);
    assert(ruled_out[conflicts.len() as int] == record.sequence);
    assert forall|k: int| 0 <= k < after.len() implies now.contains((#[trigger] after[k]).record)
        && !ruled_out.contains(after[k].record.sequence) by {
        let j = if k < i {
            k
        } else {
            k + 1
        };
        assert(after[k] == entries[j]);
        assert(entries[i].record.sequence != entries[j].record.sequence);
        let r = choose|r: int| 0 <= r < read.len() && read[r] == entries[j].record;
        assert(now[r] == entries[j].record);
        if ruled_out.contains(after[k].record.sequence) {
            let c = choose|c: int|
                0 <= c < ruled_out.len() && ruled_out[c] == after[k].record.sequence;
            assert(conflicts[c] == entries[j].record.sequence);
        }
    }
    assert forall|r: int| 0 <= r < now.len() implies ruled_out.contains(
        (#[trigger] now[r]).sequence,
    ) || has_entry_for(after, now[r]) by {
        if r < read.len() && read[r].sequence != record.sequence {
            assert(now[r] == read[r]);
            if conflicts.contains(read[r].sequence) {
                let c = choose|c: int|
                    0 <= c < conflicts.len() && conflicts[c] == read[r].sequence;
                assert(ruled_out[c] == read[r].sequence);
            } else {
                let k = lemma_entry_for(entries, read[r]);
                lemma_has_entry_for(
                    after,
                    now[r],
                    if k < i {
                        k
                    } else {
                        k - 1
                    },
                );
            }
        }
    }
    assert forall|j: int, k: int| 0 <= j < k < after.len() implies (
    #[trigger] after[j]).record.sequence != (#[trigger] after[k]).record.sequence by {
        let a = if j < i {
            j
        } else {
            j + 1
        };
        let b = if k < i {
            k
        } else {
            k + 1
        };
        assert(after[j] == entries[a] && after[k] == entries[b]);
    }
}

proof fn lemma_collect_record(
    state: Collected,
    path: Seq<char>,
    record: Arc<CommandJournalRecord>,
    read: Seq<Arc<CommandJournalRecord>>,
)
    requires
        accounts_for(state.entries, state.conflicts, read),
    ensures
        ({
            let after = collect_record(state, path, Ok::<Arc<CommandJournalRecord>, String>(record));
            accounts_for(after.entries, after.conflicts, read.push(record))
        }),
{
    let entries = state.entries;
    let conflicts = state.conflicts;
    if conflicts.contains(record.sequence) {
        lemma_record_is_known(entries, conflicts, read, record);
    } else {
        match entry_at(entries, record.sequence, 0) {
            None => {
                lemma_no_entry(entries, record.sequence, 0);
                lemma_record_is_new(entries, conflicts, read, EntryView { record, path });
            },
            Some(i) => {
                lemma_entry_at(entries, record.sequence, 0);
                if entries[i].record@ == record@ {
                    lemma_has_entry_for(entries, record, i);
                    lemma_record_is_known(entries, conflicts, read, record);
                } else {
                    lemma_record_is_disputed(entries, conflicts, read, record, i);
                }
            },
        }
    }
}

proof fn lemma_collect_records(
    state: Collected,
    path: Seq<char>,
    frames: Seq<VerifiedFrame>,
    i: int,
    read: Seq<Arc<CommandJournalRecord>>,
)
    requires
        0 <= i <= frames.len(),
        accounts_for(state.entries, state.conflicts, read),
    ensures
        ({
            let after = collect_records(state, path, frames, i);
            accounts_for(after.entries, after.conflicts, read + frame_records(frames, i))
        }),
    decreases i,
{
    if i == 0 {
        assert(read + frame_records(frames, 0) == read);
    } else {
        lemma_collect_records(state, path, frames, i - 1, read);
        let before = read + frame_records(frames, i - 1);
        match frames[i - 1].record {
            Ok(record) => {
                lemma_collect_record(
                    collect_records(state, path, frames, i - 1),
                    path,
                    record,
                    before,
                );
                assert(read + frame_records(frames, i) == before.push(record));
            },
            Err(_) => {},
        }
    }
}

proof fn lemma_collected(segments: Seq<JournalSegment>, i: int)
    requires
        0 <= i <= segments.len(),
    ensures
        accounts_for(
            collected(segments, i).entries,
            collected(segments, i).conflicts,
            segment_records(segments, i),
        ),
    decreases i,
{
    if i > 0 {
        lemma_collected(segments, i - 1);
        let before = collected(segments, i - 1);
        match segments[i - 1].content {
            Ok(content) => {
                lemma_collect_records(
                    Collected {
                        notes: before.notes + tail_notes(segments[i - 1], content),
                        ..before
                    },
                    segments[i - 1].path@,
                    content.frames@,
                    content.frames@.len() as int,
                    segment_records(segments, i - 1),
                );
            },
            Err(_) => {},
        }
    }
}

proof fn lemma_records_are_entries(state: RecoveryView, outcomes: Seq<RecordOutcome>, i: int)
    requires
        0 <= i <= outcomes.len(),
        state.records == Seq::<Arc<CommandJournalRecord>>::empty(),
    ensures
        advanced_by(state, outcomes, i).entries == state.entries,
        forall|r: int|
            0 <= r < advanced_by(state, outcomes, i).records.len() ==> exists|k: int|
                0 <= k < state.entries.len() && (#[trigger] state.entries[k]).record == (
                #[trigger] advanced_by(state, outcomes, i).records[r]),
    decreases i,
{
    if i > 0 {
        lemma_records_are_entries(state, outcomes, i - 1);
        let before = advanced_by(state, outcomes, i - 1);
        let after = advanced_by(state, outcomes, i);
        match before.expected_sequence {
            Some(sequence) => lemma_entry_at(state.entries, sequence, 0),
            None => lemma_earliest(state.entries, before.revision, state.entries.len() as int),
        }
        assert forall|r: int| 0 <= r < after.records.len() implies exists|k: int|
            0 <= k < state.entries.len() && (#[trigger] state.entries[k]).record == (
            #[trigger] after.records[r]) by {
            if r < before.records.len() {
                assert(after.records[r] == before.records[r]);
            } else {
                let k = pending_entry(before)->0;
                assert(state.entries[k].record == after.records[r]);
            }
        }
    }
}

/// What is recovered was read, and beyond dispute: all records that the segments hold
/// with the number of a recovered one are the same as it. A number that came with two
/// different records never comes back.
pub proof fn disputed_records_are_not_recovered(
    from_revision: u64,
    segments: Seq<JournalSegment>,
    outcomes: Seq<RecordOutcome>,
    i: int,
    r: int,
)
    requires
        0 <= i <= outcomes.len(),
        0 <= r < advanced_by(begun(from_revision, segments), outcomes, i).records.len(),
    ensures
        ({
            let recovered = advanced_by(begun(from_revision, segments), outcomes, i).records[r];
            let read = segment_records(segments, segments.len() as int);
            &&& read.contains(recovered)
            &&& forall|n: int|
                0 <= n < read.len() && (#[trigger] read[n]).sequence == recovered.sequence
                    ==> read[n]@ == recovered@
        }),
{
    let start = begun(from_revision, segments);
    let read = segment_records(segments, segments.len() as int);
    lemma_collected(segments, segments.len() as int);
    lemma_records_are_entries(start, outcomes, i);
    let recovered = advanced_by(start, outcomes, i).records[r];
    let k = choose|k: int|
        0 <= k < start.entries.len() && (#[trigger] start.entries[k]).record == recovered;
    assert forall|n: int|
        0 <= n < read.len() && (#[trigger] read[n]).sequence == recovered.sequence implies read[n]@
        == recovered@ by {
        let j = lemma_entry_for(start.entries, read[n]);
        assert(j == k);
    }
}

} // verus!
