//! The bounded log of what a session did, and cursors into it.

use std::collections::VecDeque;
use std::sync::Arc;

use vstd::prelude::*;

use crate::live_project::{ChangeSet, LiveProjectSnapshot, ProjectRevisions};
use crate::selection::{following, next_number, WorkspaceViewId};
use crate::text::{copy_optional_text, optional_text, same_optional_text};

verus! {

/// Where a document stands.
#[derive(Debug, PartialEq, Eq)]
pub enum ProjectLifecycle {
    Empty,
    Loading { source: String },
    Ready,
    Failed { message: String },
}

impl Clone for ProjectLifecycle {
    fn clone(&self) -> (r: Self)
        ensures
            r == *self,
    {
        match self {
            ProjectLifecycle::Empty => ProjectLifecycle::Empty,
            ProjectLifecycle::Loading { source } => ProjectLifecycle::Loading {
                source: source.clone(),
            },
            ProjectLifecycle::Ready => ProjectLifecycle::Ready,
            ProjectLifecycle::Failed { message } => ProjectLifecycle::Failed {
                message: message.clone(),
            },
        }
    }
}

/// One coherent publication of a project.
#[derive(Debug, PartialEq, Eq)]
pub struct ProjectPublication {
    pub generation: u64,
    pub revisions: ProjectRevisions,
    pub snapshot: LiveProjectSnapshot,
    /// None if the publication is no edit.
    pub change_set: Option<Arc<ChangeSet>>,
}

impl Clone for ProjectPublication {
    fn clone(&self) -> (r: Self)
        ensures
            r == *self,
    {
        ProjectPublication {
            generation: self.generation,
            revisions: self.revisions,
            snapshot: self.snapshot.clone(),
            change_set: match &self.change_set {
                Some(changes) => Some(changes.clone()),
                None => None,
            },
        }
    }
}

// ----- audio --------------------------------------------------------------

/// Whether the transport runs.
#[derive(Clone, Copy, Debug, PartialEq, Eq, Structural)]
pub enum TransportMode {
    Stopped,
    Playing,
}

/// A range of project frames.
#[derive(Clone, Copy, Debug, PartialEq, Eq, Structural)]
pub struct FrameRange {
    pub start: i64,
    pub end: i64,
}

/// The transport as it is shown.
#[derive(Clone, Copy, Debug, PartialEq, Eq, Structural)]
pub struct TransportSnapshot {
    pub mode: TransportMode,
    pub frame: i64,
    pub loop_region: Option<FrameRange>,
    pub loop_enabled: bool,
    pub revision: u64,
}

/// What the renderer is doing.
#[derive(Clone, Copy, Debug, PartialEq, Eq, Structural)]
pub enum RenderActivity {
    Idle,
    Rendering { generation: u64, revision: u64 },
    /// An older revision stays audible while a newer one is prepared.
    Updating {
        generation: u64,
        revision: u64,
        audible_revision: u64,
        candidate_ready: bool,
        publication_in_flight: bool,
    },
    Ready { revision: u64 },
    Failed { generation: u64 },
}

/// How far a scoped audition is.
#[derive(Clone, Copy, Debug, PartialEq, Eq, Structural)]
pub enum ScopedAuditionPhase {
    Pending,
    Active,
}

/// What an audition lets hear.
#[derive(Clone, Copy, Debug, PartialEq, Eq, Structural)]
pub enum AuditionSubject {
    Source,
    Construction,
    Residual,
}

/// How an audition goes with what plays.
#[derive(Clone, Copy, Debug, PartialEq, Eq, Structural)]
pub enum AuditionMix {
    Replace,
    Overlay,
}

/// A signal of one pane that is heard through the project.
#[derive(Clone, Copy, Debug, PartialEq, Eq, Structural)]
pub struct ScopedAuditionStatus {
    pub id: u64,
    pub owner: u128,
    pub subject: AuditionSubject,
    pub mix: AuditionMix,
    pub span: FrameRange,
    pub phase: ScopedAuditionPhase,
}

/// What is heard, as it is shown.
#[derive(Debug, PartialEq, Eq)]
pub struct ProjectAudioStatus {
    pub transport: TransportSnapshot,
    pub render: RenderActivity,
    pub preview_active: bool,
    pub scoped_audition: Option<ScopedAuditionStatus>,
    pub diagnostic: Option<String>,
}

/// What an audio status holds.
pub struct AudioView {
    pub transport: TransportSnapshot,
    pub render: RenderActivity,
    pub preview_active: bool,
    pub scoped_audition: Option<ScopedAuditionStatus>,
    pub diagnostic: Option<Seq<char>>,
}

impl View for ProjectAudioStatus {
    type V = AudioView;

    open spec fn view(&self) -> AudioView {
        AudioView {
            transport: self.transport,
            render: self.render,
            preview_active: self.preview_active,
            scoped_audition: self.scoped_audition,
            diagnostic: optional_text(self.diagnostic),
        }
    }
}

impl Clone for ProjectAudioStatus {
    fn clone(&self) -> (r: Self)
        ensures
            r == *self,
    {
        ProjectAudioStatus {
            transport: self.transport,
            render: self.render,
            preview_active: self.preview_active,
            scoped_audition: self.scoped_audition,
            diagnostic: copy_optional_text(&self.diagnostic),
        }
    }
}

/// Nothing is heard.
pub open spec fn silent_transport() -> TransportSnapshot {
    TransportSnapshot {
        mode: TransportMode::Stopped,
        frame: 0,
        loop_region: None,
        loop_enabled: false,
        revision: 0,
    }
}

impl Default for ProjectAudioStatus {
    fn default() -> (r: Self)
        ensures
            r.transport == silent_transport(),
            r.render == RenderActivity::Idle,
            !r.preview_active,
            r.scoped_audition is None,
            r.diagnostic is None,
    {
        ProjectAudioStatus {
            transport: TransportSnapshot {
                mode: TransportMode::Stopped,
                frame: 0,
                loop_region: None,
                loop_enabled: false,
                revision: 0,
            },
            render: RenderActivity::Idle,
            preview_active: false,
            scoped_audition: None,
            diagnostic: None,
        }
    }
}

impl ProjectAudioStatus {
    /// The status with a loop; without a range no loop can be enabled.
    pub fn with_loop(self, range: Option<FrameRange>, enabled: bool) -> (r: ProjectAudioStatus)
        ensures
            r == (ProjectAudioStatus {
                transport: TransportSnapshot {
                    loop_region: range,
                    loop_enabled: enabled && range is Some,
                    ..self.transport
                },
                ..self
            }),
    {
        let mut status = self;
        status.transport.loop_region = range;
        status.transport.loop_enabled = enabled && range.is_some();
        status
    }

    /// Whether two statuses are the same.
    pub fn same(&self, other: &ProjectAudioStatus) -> (r: bool)
        ensures
            r == (self@ == other@),
    {
        self.transport == other.transport && self.render == other.render && self.preview_active
            == other.preview_active && self.scoped_audition == other.scoped_audition
            && same_optional_text(&self.diagnostic, &other.diagnostic)
    }
}

// ----- events -------------------------------------------------------------

/// A state that one view hands to another.
#[derive(Clone, Copy, Debug, PartialEq, Eq, Structural)]
pub struct ViewLinkDelivery {
    pub view: WorkspaceViewId,
    pub revision: u64,
}

/// Something that a session did.
#[derive(Debug, PartialEq, Eq)]
pub enum ProjectSessionEvent {
    LifecycleChanged(ProjectLifecycle),
    ProjectPublished(ProjectPublication),
    HistoryChanged {
        can_undo: bool,
        can_redo: bool,
        undo_label: Option<String>,
        redo_label: Option<String>,
        journal_sequence: u64,
    },
    SelectionChanged { revision: u64 },
    LinkedViews(Arc<Vec<ViewLinkDelivery>>),
    AudioChanged(ProjectAudioStatus),
    DiagnosticsChanged,
}

impl Clone for ProjectSessionEvent {
    fn clone(&self) -> (r: Self)
        ensures
            r == *self,
    {
        match self {
            ProjectSessionEvent::LifecycleChanged(lifecycle) => {
                ProjectSessionEvent::LifecycleChanged(lifecycle.clone())
            },
            ProjectSessionEvent::ProjectPublished(publication) => {
                ProjectSessionEvent::ProjectPublished(publication.clone())
            },
            ProjectSessionEvent::HistoryChanged {
                can_undo,
                can_redo,
                undo_label,
                redo_label,
                journal_sequence,
            } => ProjectSessionEvent::HistoryChanged {
                can_undo: *can_undo,
                can_redo: *can_redo,
                undo_label: copy_optional_text(undo_label),
                redo_label: copy_optional_text(redo_label),
                journal_sequence: *journal_sequence,
            },
            ProjectSessionEvent::SelectionChanged { revision } => {
                ProjectSessionEvent::SelectionChanged { revision: *revision }
            },
            ProjectSessionEvent::LinkedViews(deliveries) => {
                ProjectSessionEvent::LinkedViews(deliveries.clone())
            },
            ProjectSessionEvent::AudioChanged(status) => {
                ProjectSessionEvent::AudioChanged(status.clone())
            },
            ProjectSessionEvent::DiagnosticsChanged => ProjectSessionEvent::DiagnosticsChanged,
        }
    }
}

/// A set of kinds of events: one bit for each kind, and no other bit.
#[derive(Clone, Copy, Debug, PartialEq, Eq, Structural)]
pub struct ProjectEventFilter(u16);

/// The bits of all kinds of events together.
pub const ALL_KINDS: u16 = 127;

/// The bit of a kind of events.
pub open spec fn kind_bit(event: ProjectSessionEvent) -> u16 {
    match event {
        ProjectSessionEvent::LifecycleChanged(_) => 1,
        ProjectSessionEvent::ProjectPublished(_) => 2,
        ProjectSessionEvent::SelectionChanged { .. } => 4,
        ProjectSessionEvent::LinkedViews(_) => 8,
        ProjectSessionEvent::AudioChanged(_) => 16,
        ProjectSessionEvent::DiagnosticsChanged => 32,
        ProjectSessionEvent::HistoryChanged { .. } => 64,
    }
}

impl ProjectEventFilter {
    /// One bit for each kind of events.
    pub closed spec fn bits(self) -> u16 {
        self.0
    }

    /// No bit stands for anything but a kind of events.
    pub open spec fn valid(self) -> bool {
        self.bits() <= ALL_KINDS
    }

    #[verifier::type_invariant]
    spec fn holds_kinds_only(self) -> bool {
        self.0 <= 127
    }

    /// Whether all kinds of another filter are in this one.
    pub open spec fn includes(self, other: ProjectEventFilter) -> bool {
        self.bits() & other.bits() == other.bits()
    }

    /// Whether a filter lets an event through.
    pub open spec fn lets_through(self, event: ProjectSessionEvent) -> bool {
        self.bits() & kind_bit(event) == kind_bit(event)
    }

    /// Changes of the lifecycle.
    pub fn lifecycle() -> (r: ProjectEventFilter)
        ensures
            r.bits() == 1,
    {
        ProjectEventFilter(1)
    }

    /// Publications of the project.
    pub fn project() -> (r: ProjectEventFilter)
        ensures
            r.bits() == 2,
    {
        ProjectEventFilter(2)
    }

    /// Changes of the selection.
    pub fn selection() -> (r: ProjectEventFilter)
        ensures
            r.bits() == 4,
    {
        ProjectEventFilter(4)
    }

    /// What linked views hand to each other.
    pub fn links() -> (r: ProjectEventFilter)
        ensures
            r.bits() == 8,
    {
        ProjectEventFilter(8)
    }

    /// Changes of what is heard.
    pub fn audio() -> (r: ProjectEventFilter)
        ensures
            r.bits() == 16,
    {
        ProjectEventFilter(16)
    }

    /// Changes of the diagnostics.
    pub fn diagnostics() -> (r: ProjectEventFilter)
        ensures
            r.bits() == 32,
    {
        ProjectEventFilter(32)
    }

    /// Changes of the history.
    pub fn history() -> (r: ProjectEventFilter)
        ensures
            r.bits() == 64,
    {
        ProjectEventFilter(64)
    }

    /// Every kind of events.
    pub fn all() -> (r: ProjectEventFilter)
        ensures
            r.bits() == 127,
    {
        ProjectEventFilter(127)
    }

    /// The kinds of both filters.
    pub fn union(self, other: ProjectEventFilter) -> (r: ProjectEventFilter)
        ensures
            r.bits() == self.bits() | other.bits(),
            self.valid(),
            other.valid(),
            r.valid(),
    {
        proof {
            use_type_invariant(&self);
            use_type_invariant(&other);
        }
        let a: u16 = self.0;
        let b: u16 = other.0;
        assert(a | b <= 127) by (bit_vector)
            requires
                a <= 127,
                b <= 127,
        ;
        ProjectEventFilter(a | b)
    }

    /// Whether all kinds of another filter are in this one.
    pub fn contains(self, other: ProjectEventFilter) -> (r: bool)
        ensures
            r == self.includes(other),
            self.valid(),
            other.valid(),
    {
        proof {
            use_type_invariant(&self);
            use_type_invariant(&other);
        }
        self.0 & other.0 == other.0
    }

    fn admits(self, event: &ProjectSessionEvent) -> (r: bool)
        ensures
            r == self.lets_through(*event),
    {
        self.contains(
            match event {
                ProjectSessionEvent::LifecycleChanged(_) => ProjectEventFilter::lifecycle(),
                ProjectSessionEvent::ProjectPublished(_) => ProjectEventFilter::project(),
                ProjectSessionEvent::HistoryChanged { .. } => ProjectEventFilter::history(),
                ProjectSessionEvent::SelectionChanged { .. } => ProjectEventFilter::selection(),
                ProjectSessionEvent::LinkedViews(_) => ProjectEventFilter::links(),
                ProjectSessionEvent::AudioChanged(_) => ProjectEventFilter::audio(),
                ProjectSessionEvent::DiagnosticsChanged => ProjectEventFilter::diagnostics(),
            },
        )
    }
}

impl Default for ProjectEventFilter {
    /// No kind of events.
    fn default() -> (r: ProjectEventFilter)
        ensures
            r.bits() == 0,
    {
        ProjectEventFilter(0)
    }
}

// ----- the log ------------------------------------------------------------

/// An event and its place in the log.
#[derive(Debug, PartialEq, Eq)]
pub struct StampedEvent {
    pub sequence: u64,
    pub event: ProjectSessionEvent,
}

/// A reader of the log: what it reads, and where it goes on.
#[derive(Clone, Copy, Debug, PartialEq, Eq)]
pub struct ProjectEventSubscription {
    pub filter: ProjectEventFilter,
    next_sequence: u64,
}

impl ProjectEventSubscription {
    /// The kinds of events that are read.
    pub closed spec fn wanted(self) -> ProjectEventFilter {
        self.filter
    }

    /// The place of the first event that was not read.
    pub closed spec fn next(self) -> u64 {
        self.next_sequence
    }
}

/// Events that were read.
#[derive(Debug, PartialEq, Eq)]
pub struct ProjectEventBatch {
    pub events: Vec<ProjectSessionEvent>,
    /// Whether some events were lost before they could be read.
    pub missed_events: bool,
}

/// What a log holds.
pub struct LogView {
    pub next_sequence: u64,
    pub capacity: nat,
    pub events: Seq<StampedEvent>,
}

/// The newest events, at most so many.
pub open spec fn newest(events: Seq<StampedEvent>, capacity: nat) -> Seq<StampedEvent> {
    if events.len() > capacity {
        events.skip(events.len() - capacity)
    } else {
        events
    }
}

/// The place after a place; no place is zero.
pub open spec fn next_place(place: u64) -> u64 {
    if next_number(place) == 0 {
        1
    } else {
        next_number(place)
    }
}

/// The log after an event.
pub open spec fn pushed(log: LogView, event: ProjectSessionEvent) -> LogView {
    LogView {
        next_sequence: next_place(log.next_sequence),
        events: newest(
            log.events.push(StampedEvent { sequence: log.next_sequence, event }),
            log.capacity,
        ),
        ..log
    }
}

/// Each event stands at the place after the one before it, and the next event comes
/// after the last.
pub open spec fn chained(log: LogView) -> bool {
    &&& log.next_sequence != 0
    &&& forall|i: int|
        0 <= i < log.events.len() ==> #[trigger] next_place(log.events[i].sequence) == if i + 1
            < log.events.len() {
            log.events[i + 1].sequence
        } else {
            log.next_sequence
        }
}

/// The place of the oldest event that is still there.
pub open spec fn oldest(log: LogView) -> u64 {
    if log.events.len() == 0 {
        log.next_sequence
    } else {
        log.events[0].sequence
    }
}

/// Those of the first `i` events that a reader gets that goes on at `start`.
pub open spec fn readable(
    events: Seq<StampedEvent>,
    start: u64,
    filter: ProjectEventFilter,
    i: int,
) -> Seq<ProjectSessionEvent>
    decreases i,
{
    if i <= 0 {
        Seq::empty()
    } else if events[i - 1].sequence >= start && filter.lets_through(events[i - 1].event) {
        readable(events, start, filter, i - 1).push(events[i - 1].event)
    } else {
        readable(events, start, filter, i - 1)
    }
}

/// What a reader gets that goes on at `next`.
pub open spec fn polled(log: LogView, next: u64, filter: ProjectEventFilter) -> Seq<
    ProjectSessionEvent,
> {
    let start = if next < oldest(log) {
        oldest(log)
    } else {
        next
    };
    readable(log.events, start, filter, log.events.len() as int)
}

/// A bounded log of events.
#[derive(Debug)]
pub struct ProjectEventLog {
    next_sequence: u64,
    capacity: usize,
    events: VecDeque<StampedEvent>,
}

impl View for ProjectEventLog {
    type V = LogView;

    closed spec fn view(&self) -> LogView {
        LogView {
            next_sequence: self.next_sequence,
            capacity: self.capacity as nat,
            events: self.events@,
        }
    }
}

impl ProjectEventLog {
    /// A log holds no more events than it may, each at the place after the one
    /// before it.
    pub open spec fn wf(&self) -> bool {
        &&& self@.events.len() <= self@.capacity
        &&& 1 <= self@.capacity <= usize::MAX
        &&& chained(self@)
    }

    /// An empty log; every log holds at least one event.
    pub fn new(capacity: usize) -> (r: ProjectEventLog)
        ensures
            r.wf(),
            r@ == (LogView {
                next_sequence: 1,
                capacity: if capacity == 0 {
                    1
                } else {
                    capacity as nat
                },
                events: Seq::empty(),
            }),
    {
        let events: VecDeque<StampedEvent> = VecDeque::new();
        assert(events@ =~= Seq::<StampedEvent>::empty());
        ProjectEventLog {
            next_sequence: 1,
            capacity: if capacity == 0 {
                1
            } else {
                capacity
            },
            events,
        }
    }

    /// Adds an event and drops the oldest where there are too many.
    pub fn push(&mut self, event: ProjectSessionEvent)
        requires
            old(self).wf(),
        ensures
            final(self).wf(),
            final(self)@ == pushed(old(self)@, event),
    {
        proof {
            pushing_keeps_the_chain(self@, event);
        }
        let sequence: u64 = self.next_sequence;
        let next: u64 = following(sequence);
        self.next_sequence = if next == 0 {
            1
        } else {
            next
        };
        if self.events.len() == self.capacity {
            let ghost before = self.events@;
            self.events.pop_front();
            assert(self.events@ =~= before.skip(1));
            self.events.push_back(StampedEvent { sequence, event });
            assert(self.events@ =~= before.push(StampedEvent { sequence, event }).skip(1));
        } else {
            self.events.push_back(StampedEvent { sequence, event });
        }
    }

    /// A reader of everything from now on.
    pub fn subscribe(&self, filter: ProjectEventFilter) -> (r: ProjectEventSubscription)
        ensures
            r.wanted() == filter,
            r.next() == self@.next_sequence,
    {
        ProjectEventSubscription { filter, next_sequence: self.next_sequence }
    }

    /// Reads what a reader has not read yet.
    pub fn poll(&self, subscription: &mut ProjectEventSubscription) -> (r: ProjectEventBatch)
        requires
            self.wf(),
        ensures
            r.events@ == polled(self@, old(subscription).next(), old(subscription).wanted()),
            r.missed_events == (old(subscription).next() < oldest(self@)),
            final(subscription).wanted() == old(subscription).wanted(),
            final(subscription).next() == self@.next_sequence,
    {
        let oldest: u64 = if self.events.len() == 0 {
            self.next_sequence
        } else {
            self.events[0].sequence
        };
        let missed_events = subscription.next_sequence < oldest;
        let start: u64 = if missed_events {
            oldest
        } else {
            subscription.next_sequence
        };
        let mut events: Vec<ProjectSessionEvent> = Vec::new();
        let mut i: usize = 0;
        while i < self.events.len()
            invariant
                i <= self.events@.len(),
                events@ == readable(self.events@, start, subscription.filter, i as int),
            decreases self.events@.len() - i,
        {
            if self.events[i].sequence >= start && subscription.filter.admits(
                &self.events[i].event,
            ) {
                events.push(self.events[i].event.clone());
            }
            i = i + 1;
        }
        subscription.next_sequence = self.next_sequence;
        ProjectEventBatch { events, missed_events }
    }
}

// ----- laws -------------------------------------------------------------

/// Pushing an event keeps the events of a log in one chain, for ever.
pub proof fn pushing_keeps_the_chain(log: LogView, event: ProjectSessionEvent)
    requires
        chained(log),
        1 <= log.capacity,
        log.events.len() <= log.capacity,
    ensures
        chained(pushed(log, event)),
        pushed(log, event).events.len() <= log.capacity,
{
    let after = pushed(log, event);
    let all = log.events.push(StampedEvent { sequence: log.next_sequence, event });
    let dropped = all.len() - after.events.len();
    assert forall|i: int| 0 <= i < after.events.len() implies #[trigger] next_place(
        after.events[i].sequence,
    ) == if i + 1 < after.events.len() {
        after.events[i + 1].sequence
    } else {
        after.next_sequence
    } by {
        assert(after.events[i] == all[i + dropped]);
        if i + 1 < after.events.len() {
            assert(after.events[i + 1] == all[i + 1 + dropped]);
            assert(next_place(log.events[i + dropped].sequence) == all[i + 1 + dropped].sequence);
        }
    }
}

/// As long as the places have not run out, a chain is a run of consecutive places.
pub proof fn chains_are_orderly(log: LogView)
    requires
        chained(log),
        1 <= log.capacity,
        log.events.len() <= log.capacity,
        log.events.len() < log.next_sequence,
    ensures
        orderly(log),
{
    assert forall|i: int| 0 <= i < log.events.len() implies (#[trigger] log.events[i]).sequence
        == log.next_sequence - log.events.len() + i by {
        lemma_chain(log, i);
    }
}

proof fn lemma_chain(log: LogView, i: int)
    requires
        chained(log),
        log.events.len() < log.next_sequence,
        0 <= i < log.events.len(),
    ensures
        log.events[i].sequence == log.next_sequence - log.events.len() + i,
    decreases log.events.len() - i,
{
    if i + 1 < log.events.len() {
        lemma_chain(log, i + 1);
    }
    assert(next_place(log.events[i].sequence) == log.next_sequence - log.events.len() + i + 1);
}

/// The lesser of two numbers.
pub open spec fn least(a: int, b: int) -> int {
    if a <= b {
        a
    } else {
        b
    }
}

/// The events of a log stand at consecutive places, up to the next one.
pub open spec fn orderly(log: LogView) -> bool {
    &&& 1 <= log.capacity
    &&& log.events.len() <= log.capacity
    &&& log.events.len() < log.next_sequence
    &&& forall|i: int|
        0 <= i < log.events.len() ==> (#[trigger] log.events[i]).sequence == log.next_sequence
            - log.events.len() + i
}

/// A log stays orderly until the places run out.
pub proof fn pushing_keeps_order(log: LogView, event: ProjectSessionEvent)
    requires
        orderly(log),
        log.next_sequence < u64::MAX,
    ensures
        orderly(pushed(log, event)),
        pushed(log, event).next_sequence == log.next_sequence + 1,
{
    let after = pushed(log, event);
    let all = log.events.push(StampedEvent { sequence: log.next_sequence, event });
    assert forall|i: int| 0 <= i < after.events.len() implies (#[trigger] after.events[i]).sequence
        == after.next_sequence - after.events.len() + i by {
        if all.len() > log.capacity {
            assert(after.events[i] == all[i + (all.len() - log.capacity)]);
        }
    }
}

/// The log after the first `n` of some events.
pub open spec fn pushed_all(log: LogView, events: Seq<ProjectSessionEvent>, n: int) -> LogView
    decreases n,
{
    if n <= 0 {
        log
    } else {
        pushed(pushed_all(log, events, n - 1), events[n - 1])
    }
}

/// Those of the first `n` events that a filter lets through.
pub open spec fn filtered(
    events: Seq<ProjectSessionEvent>,
    filter: ProjectEventFilter,
    n: int,
) -> Seq<ProjectSessionEvent>
    decreases n,
{
    if n <= 0 {
        Seq::empty()
    } else if filter.lets_through(events[n - 1]) {
        filtered(events, filter, n - 1).push(events[n - 1])
    } else {
        filtered(events, filter, n - 1)
    }
}

proof fn lemma_pushed_all(log: LogView, events: Seq<ProjectSessionEvent>, n: int)
    requires
        orderly(log),
        0 <= n <= events.len(),
        log.next_sequence + n <= u64::MAX,
    ensures
        ({
            let after = pushed_all(log, events, n);
            let kept = least(n, log.capacity as int);
            &&& orderly(after)
            &&& after.capacity == log.capacity
            &&& after.next_sequence == log.next_sequence + n
            &&& after.events.len() == least(log.events.len() + n, log.capacity as int)
            &&& forall|k: int|
                0 <= k < kept ==> (#[trigger] after.events[after.events.len() - kept + k]).event
                    == events[n - kept + k]
        }),
    decreases n,
{
    if n > 0 {
        lemma_pushed_all(log, events, n - 1);
        let before = pushed_all(log, events, n - 1);
        let after = pushed_all(log, events, n);
        pushing_keeps_order(before, events[n - 1]);
        let all = before.events.push(
            StampedEvent { sequence: before.next_sequence, event: events[n - 1] },
        );
        let dropped = all.len() - after.events.len();
        let kept = least(n, log.capacity as int);
        let earlier = least(n - 1, log.capacity as int);
        assert forall|k: int| 0 <= k < kept implies (#[trigger] after.events[after.events.len()
            - kept + k]).event == events[n - kept + k] by {
            let at = after.events.len() - kept + k;
            assert(after.events[at] == all[at + dropped]);
            if k < kept - 1 {
                let j = k - kept + 1 + earlier;
                assert(all[at + dropped] == before.events[before.events.len() - earlier + j]);
            }
        }
    }
}

proof fn lemma_readable_suffix(
    log: LogView,
    start: u64,
    filter: ProjectEventFilter,
    events: Seq<ProjectSessionEvent>,
    n: int,
    i: int,
)
    requires
        orderly(log),
        0 <= n <= log.events.len(),
        n <= events.len(),
        start == log.next_sequence - n,
        forall|k: int|
            0 <= k < n ==> (#[trigger] log.events[log.events.len() - n + k]).event == events[k],
        0 <= i <= log.events.len(),
    ensures
        readable(log.events, start, filter, i) == filtered(
            events,
            filter,
            if i <= log.events.len() - n {
                0
            } else {
                i - (log.events.len() - n)
            },
        ),
    decreases i,
{
    if i > 0 {
        lemma_readable_suffix(log, start, filter, events, n, i - 1);
        let first = log.events.len() - n;
        assert(log.events[i - 1].sequence == log.next_sequence - log.events.len() + i - 1);
        if i - 1 >= first {
            let k = i - 1 - first;
            assert(log.events[first + k].event == events[k]);
        }
    }
}

/// The last events, at most so many.
pub open spec fn last_of(events: Seq<ProjectSessionEvent>, most: nat) -> Seq<
    ProjectSessionEvent,
> {
    if events.len() > most {
        events.skip(events.len() - most)
    } else {
        events
    }
}

/// A reader gets what was pushed since it last read and was asked for, once and in
/// order: of all of it where no more was pushed than the log holds, of the newest
/// events otherwise. It is told that events were missed exactly where more was pushed
/// than the log holds, whatever it asked for.
pub proof fn readers_get_what_they_asked_for(
    log: LogView,
    events: Seq<ProjectSessionEvent>,
    filter: ProjectEventFilter,
)
    requires
        orderly(log),
        log.next_sequence + events.len() <= u64::MAX,
    ensures
        ({
            let after = pushed_all(log, events, events.len() as int);
            let kept = last_of(events, log.capacity);
            &&& (log.next_sequence < oldest(after)) == (events.len() > log.capacity)
            &&& polled(after, log.next_sequence, filter) == filtered(
                kept,
                filter,
                kept.len() as int,
            )
            &&& orderly(after)
        }),
{
    let n = events.len() as int;
    lemma_pushed_all(log, events, n);
    let after = pushed_all(log, events, n);
    let kept = last_of(events, log.capacity);
    if after.events.len() > 0 {
        assert(after.events[0].sequence == after.next_sequence - after.events.len());
    }
    let start = (after.next_sequence - kept.len()) as u64;
    assert forall|k: int| 0 <= k < kept.len() implies (#[trigger] after.events[after.events.len()
        - kept.len() + k]).event == kept[k] by {
        assert(kept[k] == events[n - kept.len() + k]);
    }
    lemma_readable_suffix(
        after,
        start,
        filter,
        kept,
        kept.len() as int,
        after.events.len() as int,
    );
}

/// Reading again right away gives nothing and misses nothing.
pub proof fn reading_again_gives_nothing(log: LogView, filter: ProjectEventFilter)
    requires
        orderly(log),
    ensures
        polled(log, log.next_sequence, filter) == Seq::<ProjectSessionEvent>::empty(),
        !(log.next_sequence < oldest(log)),
{
    if log.events.len() > 0 {
        assert(log.events[0].sequence == log.next_sequence - log.events.len());
    }
    lemma_readable_suffix(
        log,
        log.next_sequence,
        filter,
        Seq::empty(),
        0,
        log.events.len() as int,
    );
}

/// The bit of one kind of events.
pub open spec fn is_kind(bit: u16) -> bool {
    bit == 1 || bit == 2 || bit == 4 || bit == 8 || bit == 16 || bit == 32 || bit == 64
}

/// Filters are sets of kinds: one includes another exactly where it has every kind
/// that the other has, a union has the kinds of both, every filter includes the empty
/// one, and all kinds together include every filter.
pub proof fn filters_are_sets_of_kinds(
    a: ProjectEventFilter,
    b: ProjectEventFilter,
    both: ProjectEventFilter,
    none: ProjectEventFilter,
    all: ProjectEventFilter,
)
    requires
        a.valid(),
        b.valid(),
        both.bits() == a.bits() | b.bits(),
        none.bits() == 0,
        all.bits() == ALL_KINDS,
    ensures
        a.includes(b) == (forall|kind: ProjectEventFilter|
            is_kind(kind.bits()) && #[trigger] b.includes(kind) ==> a.includes(kind)),
        forall|kind: ProjectEventFilter|
            is_kind(kind.bits()) ==> (#[trigger] both.includes(kind)) == (a.includes(kind)
                || b.includes(kind)),
        a.includes(none),
        all.includes(a),
{
    let x = a.bits();
    let y = b.bits();
    assert(x & 0 == 0) by (bit_vector);
    assert(127u16 & x == x) by (bit_vector)
        requires
            x <= 127,
    ;
    assert forall|kind: ProjectEventFilter| is_kind(kind.bits()) implies (
    #[trigger] both.includes(kind)) == (a.includes(kind) || b.includes(kind)) by {
        let k = kind.bits();
        assert((x | y) & k == k <==> (x & k == k || y & k == k)) by (bit_vector)
            requires
                k == 1u16 || k == 2 || k == 4 || k == 8 || k == 16 || k == 32 || k == 64,
        ;
    }
    if a.includes(b) {
        assert forall|kind: ProjectEventFilter|
            is_kind(kind.bits()) && #[trigger] b.includes(kind) implies a.includes(kind) by {
            let k = kind.bits();
            assert(x & k == k) by (bit_vector)
                requires
                    x & y == y,
                    y & k == k,
            ;
        }
    } else if forall|kind: ProjectEventFilter|
        is_kind(kind.bits()) && #[trigger] b.includes(kind) ==> a.includes(kind) {
        lemma_each_kind(a, b, 1);
        lemma_each_kind(a, b, 2);
        lemma_each_kind(a, b, 4);
        lemma_each_kind(a, b, 8);
        lemma_each_kind(a, b, 16);
        lemma_each_kind(a, b, 32);
        lemma_each_kind(a, b, 64);
        assert(x & y == y) by (bit_vector)
            requires
                y <= 127,
                y & 1 == 1 ==> x & 1 == 1,
                y & 2 == 2 ==> x & 2 == 2,
                y & 4 == 4 ==> x & 4 == 4,
                y & 8 == 8 ==> x & 8 == 8,
                y & 16 == 16 ==> x & 16 == 16,
                y & 32 == 32 ==> x & 32 == 32,
                y & 64 == 64 ==> x & 64 == 64,
        ;
    }
}

proof fn lemma_each_kind(a: ProjectEventFilter, b: ProjectEventFilter, bit: u16)
    requires
        is_kind(bit),
        forall|kind: ProjectEventFilter|
            is_kind(kind.bits()) && #[trigger] b.includes(kind) ==> a.includes(kind),
    ensures
        b.bits() & bit == bit ==> a.bits() & bit == bit,
{
    let kind = ProjectEventFilter(bit);
    assert(kind.bits() == bit);
    assert(b.includes(kind) == (b.bits() & bit == bit));
}

/// No kind of events includes another.
pub proof fn kinds_are_apart(a: ProjectEventFilter, b: ProjectEventFilter)
    requires
        is_kind(a.bits()),
        is_kind(b.bits()),
        a.bits() != b.bits(),
    ensures
        !a.includes(b),
{
    let x = a.bits();
    let y = b.bits();
    assert(x & y != y) by (bit_vector)
        requires
            x == 1u16 || x == 2 || x == 4 || x == 8 || x == 16 || x == 32 || x == 64,
            y == 1u16 || y == 2 || y == 4 || y == 8 || y == 16 || y == 32 || y == 64,
            x != y,
    ;
}

/// A union lets through exactly what one of its parts does.
pub proof fn unions_let_through_what_their_parts_do(
    left: ProjectEventFilter,
    right: ProjectEventFilter,
    both: ProjectEventFilter,
    event: ProjectSessionEvent,
)
    requires
        both.bits() == left.bits() | right.bits(),
    ensures
        both.lets_through(event) == (left.lets_through(event) || right.lets_through(event)),
{
    let a = left.bits();
    let b = right.bits();
    let k = kind_bit(event);
    assert((a | b) & k == k <==> (a & k == k || b & k == k)) by (bit_vector)
        requires
            k == 1u16 || k == 2 || k == 4 || k == 8 || k == 16 || k == 32 || k == 64,
    ;
}

} // verus!
