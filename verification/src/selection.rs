//! What is selected in a project, and how a delayed selection stays honest.
//!
//! A selection of objects carries a guard: the document and the revision that
//! it was made against.

use vstd::prelude::*;

use crate::command::HypothesisId;
use crate::navigation::{optional_geometry, same_optional_geometry, AspectGeometryDto, GeometryView};
use crate::objects::{
    holds_object, same_objects, same_optional_object, ComparisonId, ExplanationId, ObjectRef,
};

verus! {

/// A view of the workspace.
#[derive(Clone, Copy, Debug, PartialEq, Eq, PartialOrd, Ord, Hash, Structural)]
pub struct WorkspaceViewId(pub u64);

/// An installed document, for the time it is installed.
#[derive(Clone, Copy, Debug, PartialEq, Eq, Structural)]
pub struct SelectionDocumentId(pub u64);

/// The document and revision that a selection was made against.
#[derive(Clone, Copy, Debug, PartialEq, Eq, Structural)]
pub struct SelectionGuard {
    pub document: SelectionDocumentId,
    pub project_revision: u64,
}

/// Where a selection came from.
#[derive(Clone, Copy, Debug, PartialEq, Eq, Structural)]
pub enum SelectionSource {
    Unspecified,
    Arrangement,
    Reveal,
    Reading,
}

/// Where a selection came from, and through which view.
#[derive(Clone, Copy, Debug, PartialEq, Eq, Structural)]
pub struct SelectionProvenance {
    pub source: SelectionSource,
    pub source_view: Option<WorkspaceViewId>,
}

/// The objects that are selected.
#[derive(Debug, PartialEq, Eq)]
pub struct ObjectSelection {
    pub primary: Option<ObjectRef>,
    pub secondary: Vec<ObjectRef>,
    pub guard: Option<SelectionGuard>,
    pub provenance: SelectionProvenance,
}

impl Default for ObjectSelection {
    fn default() -> (r: Self)
        ensures
            r.primary is None,
            r.secondary@ == Seq::<ObjectRef>::empty(),
            r.guard is None,
            r.provenance == (SelectionProvenance {
                source: SelectionSource::Unspecified,
                source_view: None,
            }),
    {
        ObjectSelection {
            primary: None,
            secondary: Vec::new(),
            guard: None,
            provenance: SelectionProvenance {
                source: SelectionSource::Unspecified,
                source_view: None,
            },
        }
    }
}

/// A span of project time.
#[derive(Clone, Copy, Debug, PartialEq, Eq, Structural)]
pub struct TimeSpan {
    pub start: i64,
    pub end: i64,
}

/// The signal that a selection listens to.
#[derive(Clone, Copy, Debug, PartialEq, Eq, Structural)]
pub enum SelectedSignal {
    Source,
    Explanation(ExplanationId),
    Residual(ComparisonId),
}

/// An object of the interpretation graph.
#[derive(Clone, Copy, Debug, PartialEq, Eq, Structural)]
pub struct GraphObjectId(pub u64);

/// A selected part of the interpretation graph.
#[derive(Clone, Copy, Debug, PartialEq, Eq, Structural)]
pub enum AirSelection {
    Object(GraphObjectId),
    Hypothesis(HypothesisId),
}

/// Everything that is selected.
#[derive(Debug, PartialEq, Eq)]
pub struct ProjectSelection {
    pub objects: ObjectSelection,
    pub time: Option<TimeSpan>,
    pub aspect: Option<AspectGeometryDto>,
    pub signal: Option<SelectedSignal>,
    pub air: Vec<AirSelection>,
}

/// What a selection holds.
pub struct SelectionView {
    pub primary: Option<ObjectRef>,
    pub secondary: Seq<ObjectRef>,
    pub guard: Option<SelectionGuard>,
    pub provenance: SelectionProvenance,
    pub time: Option<TimeSpan>,
    pub aspect: Option<GeometryView>,
    pub signal: Option<SelectedSignal>,
    pub air: Seq<AirSelection>,
}

impl View for ProjectSelection {
    type V = SelectionView;

    open spec fn view(&self) -> SelectionView {
        SelectionView {
            primary: self.objects.primary,
            secondary: self.objects.secondary@,
            guard: self.objects.guard,
            provenance: self.objects.provenance,
            time: self.time,
            aspect: optional_geometry(self.aspect),
            signal: self.signal,
            air: self.air@,
        }
    }
}

/// Nothing is selected.
pub open spec fn empty_selection() -> SelectionView {
    SelectionView {
        primary: None,
        secondary: Seq::empty(),
        guard: None,
        provenance: SelectionProvenance { source: SelectionSource::Unspecified, source_view: None },
        time: None,
        aspect: None,
        signal: None,
        air: Seq::empty(),
    }
}

impl Default for ProjectSelection {
    fn default() -> (r: Self)
        ensures
            r@ == empty_selection(),
    {
        ProjectSelection {
            objects: ObjectSelection::default(),
            time: None,
            aspect: None,
            signal: None,
            air: Vec::new(),
        }
    }
}

fn same_air(left: &Vec<AirSelection>, right: &Vec<AirSelection>) -> (r: bool)
    ensures
        r == (left@ == right@),
{
    if left.len() != right.len() {
        return false;
    }
    let mut i: usize = 0;
    while i < left.len()
        invariant
            i <= left.len(),
            left@.len() == right@.len(),
            forall|k: int| 0 <= k < i ==> left@[k] == right@[k],
        decreases left.len() - i,
    {
        if left[i] != right[i] {
            return false;
        }
        i = i + 1;
    }
    assert(left@ =~= right@);
    true
}

impl ProjectSelection {
    /// The selection that revealing an object makes.
    pub fn from_reveal(
        primary: ObjectRef,
        related: Vec<ObjectRef>,
        guard: SelectionGuard,
        source_view: Option<WorkspaceViewId>,
    ) -> (r: ProjectSelection)
        ensures
            r@ == (SelectionView {
                primary: Some(primary),
                secondary: related@,
                guard: Some(guard),
                provenance: SelectionProvenance { source: SelectionSource::Reveal, source_view },
                ..empty_selection()
            }),
    {
        let none: Vec<AirSelection> = Vec::new();
        assert(none@ =~= Seq::<AirSelection>::empty());
        ProjectSelection {
            objects: ObjectSelection {
                primary: Some(primary),
                secondary: related,
                guard: Some(guard),
                provenance: SelectionProvenance { source: SelectionSource::Reveal, source_view },
            },
            time: None,
            aspect: None,
            signal: None,
            air: none,
        }
    }

    /// Whether two selections are the same.
    pub fn same(&self, other: &ProjectSelection) -> (r: bool)
        ensures
            r == (self@ == other@),
    {
        let same = same_optional_object(&self.objects.primary, &other.objects.primary)
            && same_objects(&self.objects.secondary, &other.objects.secondary)
            && self.objects.guard == other.objects.guard && self.objects.provenance
            == other.objects.provenance && self.time == other.time && same_optional_geometry(
            &self.aspect,
            &other.aspect,
        ) && self.signal == other.signal && same_air(&self.air, &other.air);
        same
    }
}

/// Where the edit cursor stands.
#[derive(Clone, Copy, Debug, PartialEq, Eq, Structural)]
pub struct EditCursor {
    pub frame: i64,
}

/// Why a guarded selection is refused.
#[derive(Clone, Copy, Debug, PartialEq, Eq, Structural)]
pub enum SelectionGuardError {
    MissingGuard,
    DocumentConflict { expected: SelectionDocumentId, actual: SelectionDocumentId },
    ProjectRevisionConflict { expected: u64, actual: u64 },
}

/// What became of the selected objects.
#[derive(Clone, Copy, Debug, PartialEq, Eq, Structural)]
pub struct SelectionReconcileReport {
    pub removed: usize,
    pub primary_removed: bool,
}

/// The selection of a session. The revision grows with every change.
#[derive(Debug, PartialEq, Eq)]
pub struct ProjectSelectionState {
    pub revision: u64,
    pub selection: ProjectSelection,
    pub edit_cursor: EditCursor,
}

/// What the selection of a session holds.
pub struct SelectionStateView {
    pub revision: u64,
    pub selection: SelectionView,
    pub edit_cursor: EditCursor,
}

impl View for ProjectSelectionState {
    type V = SelectionStateView;

    open spec fn view(&self) -> SelectionStateView {
        SelectionStateView {
            revision: self.revision,
            selection: self.selection@,
            edit_cursor: self.edit_cursor,
        }
    }
}

/// The number after a number, from the greatest back to zero.
pub open spec fn next_number(number: u64) -> u64 {
    if number == u64::MAX {
        0
    } else {
        (number + 1) as u64
    }
}

/// Computes the number after a number.
pub fn following(number: u64) -> (r: u64)
    ensures
        r == next_number(number),
{
    if number == u64::MAX {
        0
    } else {
        number + 1
    }
}

/// The state after a selection was offered.
pub open spec fn selected(state: SelectionStateView, selection: SelectionView) -> SelectionStateView {
    if state.selection == selection {
        state
    } else {
        SelectionStateView { revision: next_number(state.revision), selection, ..state }
    }
}

/// Why a guard does not hold for a document at a revision.
pub open spec fn guard_fault(
    guard: Option<SelectionGuard>,
    document: SelectionDocumentId,
    revision: u64,
) -> Option<SelectionGuardError> {
    match guard {
        None => Some(SelectionGuardError::MissingGuard),
        Some(guard) => if guard.document != document {
            Some(
                SelectionGuardError::DocumentConflict {
                    expected: guard.document,
                    actual: document,
                },
            )
        } else if guard.project_revision != revision {
            Some(
                SelectionGuardError::ProjectRevisionConflict {
                    expected: guard.project_revision,
                    actual: revision,
                },
            )
        } else {
            None
        },
    }
}

/// Those of the first `i` objects that are alive.
pub open spec fn alive(objects: Seq<ObjectRef>, live: Seq<ObjectRef>, i: int) -> Seq<ObjectRef>
    decreases i,
{
    if i <= 0 {
        Seq::empty()
    } else if live.contains(objects[i - 1]) {
        alive(objects, live, i - 1).push(objects[i - 1])
    } else {
        alive(objects, live, i - 1)
    }
}

/// Whether the primary object is gone.
pub open spec fn primary_gone(selection: SelectionView, live: Seq<ObjectRef>) -> bool {
    match selection.primary {
        Some(object) => !live.contains(object),
        None => false,
    }
}

/// A selection without the objects that are gone. The first related object that
/// is alive takes the place of a primary one that is gone.
pub open spec fn reconciled(selection: SelectionView, live: Seq<ObjectRef>) -> SelectionView {
    let kept = alive(selection.secondary, live, selection.secondary.len() as int);
    if primary_gone(selection, live) {
        if kept.len() > 0 {
            SelectionView { primary: Some(kept[0]), secondary: kept.drop_first(), ..selection }
        } else {
            SelectionView { primary: None, secondary: kept, ..selection }
        }
    } else {
        SelectionView { secondary: kept, ..selection }
    }
}

/// How many objects reconciling removes.
pub open spec fn removed_count(selection: SelectionView, live: Seq<ObjectRef>) -> int {
    let kept = alive(selection.secondary, live, selection.secondary.len() as int);
    selection.secondary.len() - kept.len() + if primary_gone(selection, live) {
        1int
    } else {
        0
    }
}

fn keep_alive(objects: &Vec<ObjectRef>, live: &Vec<ObjectRef>) -> (r: Vec<ObjectRef>)
    ensures
        r@ == alive(objects@, live@, objects@.len() as int),
        r@.len() <= objects@.len(),
{
    let mut out: Vec<ObjectRef> = Vec::new();
    let mut i: usize = 0;
    while i < objects.len()
        invariant
            i <= objects.len(),
            out@ == alive(objects@, live@, i as int),
            out@.len() <= i,
        decreases objects.len() - i,
    {
        if holds_object(live, &objects[i]) {
            out.push(objects[i]);
        }
        i = i + 1;
    }
    out
}

impl ProjectSelectionState {
    /// Nothing is selected yet.
    pub fn new() -> (r: ProjectSelectionState)
        ensures
            r@ == (SelectionStateView {
                revision: 0,
                selection: empty_selection(),
                edit_cursor: EditCursor { frame: 0 },
            }),
    {
        ProjectSelectionState {
            revision: 0,
            selection: ProjectSelection::default(),
            edit_cursor: EditCursor { frame: 0 },
        }
    }

    /// Selects something else; whether anything changed.
    pub fn replace(&mut self, selection: ProjectSelection) -> (r: bool)
        ensures
            final(self)@ == selected(old(self)@, selection@),
            r == (old(self)@.selection != selection@),
    {
        if self.selection.same(&selection) {
            return false;
        }
        self.selection = selection;
        self.revision = following(self.revision);
        true
    }

    /// Selects something that was prepared earlier, if its guard still holds.
    pub fn replace_guarded(
        &mut self,
        selection: ProjectSelection,
        document: SelectionDocumentId,
        project_revision: u64,
    ) -> (r: Result<bool, SelectionGuardError>)
        ensures
            match guard_fault(selection@.guard, document, project_revision) {
                Some(fault) => r == Err::<bool, SelectionGuardError>(fault) && *final(self) == *old(
                    self,
                ),
                None => r == Ok::<bool, SelectionGuardError>(old(self)@.selection != selection@)
                    && final(self)@ == selected(old(self)@, selection@),
            },
    {
        match check_guard(selection.objects.guard, document, project_revision) {
            Some(fault) => Err(fault),
            None => Ok(self.replace(selection)),
        }
    }

    /// Drops the selected objects that are not among the live ones, if the guard
    /// of the selection still holds.
    pub fn reconcile_guarded(
        &mut self,
        document: SelectionDocumentId,
        project_revision: u64,
        live: &Vec<ObjectRef>,
    ) -> (r: Result<SelectionReconcileReport, SelectionGuardError>)
        requires
            old(self)@.selection.secondary.len() < usize::MAX,
        ensures
            match guard_fault(old(self)@.selection.guard, document, project_revision) {
                Some(fault) => r == Err::<SelectionReconcileReport, SelectionGuardError>(fault)
                    && *final(self) == *old(self),
                None => {
                    &&& final(self)@ == selected(
                        old(self)@,
                        reconciled(old(self)@.selection, live@),
                    )
                    &&& r matches Ok(report)
                    &&& report.removed == removed_count(old(self)@.selection, live@)
                    &&& report.primary_removed == primary_gone(old(self)@.selection, live@)
                },
            },
    {
        match check_guard(self.selection.objects.guard, document, project_revision) {
            Some(fault) => {
                return Err(fault);
            },
            None => {},
        }
        let ghost before = self@;
        let mut kept = keep_alive(&self.selection.objects.secondary, live);
        let gone: usize = self.selection.objects.secondary.len() - kept.len();
        let primary_removed = match &self.selection.objects.primary {
            Some(object) => !holds_object(live, object),
            None => false,
        };
        let ghost all = kept@;
        let mut removed: usize = gone;
        let mut primary = self.selection.objects.primary;
        if primary_removed {
            removed = gone + 1;
            if kept.len() > 0 {
                primary = Some(kept.remove(0));
                assert(kept@ =~= all.drop_first());
            } else {
                primary = None;
            }
        }
        let same = same_optional_object(&primary, &self.selection.objects.primary) && same_objects(
            &kept,
            &self.selection.objects.secondary,
        );
        let ghost target = reconciled(before.selection, live@);
        assert(target.primary == primary && target.secondary == kept@);
        self.selection.objects.primary = primary;
        self.selection.objects.secondary = kept;
        assert(self.selection@ == target);
        if !same {
            self.revision = following(self.revision);
        }
        Ok(SelectionReconcileReport { removed, primary_removed })
    }

    /// Moves the edit cursor; whether anything changed.
    pub fn set_edit_cursor(&mut self, cursor: EditCursor) -> (r: bool)
        ensures
            r == (old(self).edit_cursor != cursor),
            r ==> final(self)@ == (SelectionStateView {
                revision: next_number(old(self).revision),
                edit_cursor: cursor,
                ..old(self)@
            }),
            !r ==> final(self)@ == old(self)@,
    {
        if self.edit_cursor == cursor {
            return false;
        }
        self.edit_cursor = cursor;
        self.revision = following(self.revision);
        true
    }
}

fn check_guard(
    guard: Option<SelectionGuard>,
    document: SelectionDocumentId,
    revision: u64,
) -> (r: Option<SelectionGuardError>)
    ensures
        r == guard_fault(guard, document, revision),
{
    match guard {
        None => Some(SelectionGuardError::MissingGuard),
        Some(guard) => {
            if guard.document != document {
                Some(
                    SelectionGuardError::DocumentConflict {
                        expected: guard.document,
                        actual: document,
                    },
                )
            } else if guard.project_revision != revision {
                Some(
                    SelectionGuardError::ProjectRevisionConflict {
                        expected: guard.project_revision,
                        actual: revision,
                    },
                )
            } else {
                None
            }
        },
    }
}

// ----- laws -------------------------------------------------------------

proof fn lemma_alive_members(objects: Seq<ObjectRef>, live: Seq<ObjectRef>, i: int)
    requires
        0 <= i <= objects.len(),
    ensures
        forall|k: int|
            0 <= k < alive(objects, live, i).len() ==> live.contains(
                #[trigger] alive(objects, live, i)[k],
            ),
    decreases i,
{
    if i > 0 {
        lemma_alive_members(objects, live, i - 1);
        let before = alive(objects, live, i - 1);
        let after = alive(objects, live, i);
        assert forall|k: int| 0 <= k < after.len() implies live.contains(#[trigger] after[k]) by {
            if k < before.len() {
                assert(after[k] == before[k]);
            }
        }
    }
}

/// After reconciling, only live objects are selected.
pub proof fn reconciling_leaves_only_live_objects(selection: SelectionView, live: Seq<ObjectRef>)
    ensures
        reconciled(selection, live).primary matches Some(object) ==> live.contains(object),
        forall|k: int|
            0 <= k < reconciled(selection, live).secondary.len() ==> live.contains(
                #[trigger] reconciled(selection, live).secondary[k],
            ),
{
    let kept = alive(selection.secondary, live, selection.secondary.len() as int);
    lemma_alive_members(selection.secondary, live, selection.secondary.len() as int);
    assert forall|k: int| 0 <= k < reconciled(selection, live).secondary.len() implies live.contains(
        #[trigger] reconciled(selection, live).secondary[k],
    ) by {
        if primary_gone(selection, live) && kept.len() > 0 {
            assert(kept.drop_first()[k] == kept[k + 1]);
        }
    }
    if primary_gone(selection, live) && kept.len() > 0 {
        assert(live.contains(kept[0]));
    }
}

proof fn lemma_all_alive(objects: Seq<ObjectRef>, live: Seq<ObjectRef>, i: int)
    requires
        0 <= i <= objects.len(),
        forall|k: int| 0 <= k < objects.len() ==> live.contains(#[trigger] objects[k]),
    ensures
        alive(objects, live, i) == objects.take(i),
    decreases i,
{
    if i > 0 {
        lemma_all_alive(objects, live, i - 1);
        assert(objects.take(i) =~= objects.take(i - 1).push(objects[i - 1]));
    } else {
        assert(objects.take(0) =~= Seq::<ObjectRef>::empty());
    }
}

/// Reconciling a second time against the same objects changes nothing.
pub proof fn reconciling_twice_changes_nothing_more(selection: SelectionView, live: Seq<ObjectRef>)
    ensures
        reconciled(reconciled(selection, live), live) == reconciled(selection, live),
{
    reconciling_leaves_only_live_objects(selection, live);
    let once = reconciled(selection, live);
    lemma_all_alive(once.secondary, live, once.secondary.len() as int);
    assert(once.secondary.take(once.secondary.len() as int) =~= once.secondary);
}

} // verus!
