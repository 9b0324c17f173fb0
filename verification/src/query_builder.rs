//! An editable query term and the rows it is shown as.
//!
//! A path holds child indices from the root; a unary operator has its child at
//! index zero.

use vstd::prelude::*;
use vstd::string::*;

use crate::query_terms::{term_label, term_trees, FactKindDto, QueryTermDto, TermTree};
use crate::text::{append_decimal, decimal, owned};

verus! {

/// The operator that a selected term is wrapped in.
#[derive(Clone, Copy, Debug, PartialEq, Eq, Structural)]
pub enum QueryWrapOperator {
    And,
    Or,
    Not,
    Related,
}

/// Why an edit of the draft is refused.
#[derive(Debug, PartialEq, Eq)]
pub enum QueryBuilderRefusal {
    UnknownPath(Vec<usize>),
    ExpectedKind(Vec<usize>),
    ExpectedList(Vec<usize>),
    ExpectedProposal(Vec<usize>),
    CannotRemoveRoot,
    InvalidProposalId,
}

/// What a refusal says.
pub enum BuilderFault {
    UnknownPath(Seq<usize>),
    ExpectedKind(Seq<usize>),
    ExpectedList(Seq<usize>),
    ExpectedProposal(Seq<usize>),
    CannotRemoveRoot,
    InvalidProposalId,
}

impl View for QueryBuilderRefusal {
    type V = BuilderFault;

    open spec fn view(&self) -> BuilderFault {
        match *self {
            QueryBuilderRefusal::UnknownPath(path) => BuilderFault::UnknownPath(path@),
            QueryBuilderRefusal::ExpectedKind(path) => BuilderFault::ExpectedKind(path@),
            QueryBuilderRefusal::ExpectedList(path) => BuilderFault::ExpectedList(path@),
            QueryBuilderRefusal::ExpectedProposal(path) => BuilderFault::ExpectedProposal(path@),
            QueryBuilderRefusal::CannotRemoveRoot => BuilderFault::CannotRemoveRoot,
            QueryBuilderRefusal::InvalidProposalId => BuilderFault::InvalidProposalId,
        }
    }
}

/// The child of a term at an index.
pub open spec fn child_at(term: TermTree, index: int) -> Option<TermTree> {
    match term {
        TermTree::Related(to) => if index == 0 {
            Some(*to)
        } else {
            None
        },
        TermTree::Not(inner) => if index == 0 {
            Some(*inner)
        } else {
            None
        },
        TermTree::And(terms) => if 0 <= index < terms.len() {
            Some(terms[index])
        } else {
            None
        },
        TermTree::Or(terms) => if 0 <= index < terms.len() {
            Some(terms[index])
        } else {
            None
        },
        _ => None,
    }
}

/// The term with the child at an index replaced.
pub open spec fn with_child(term: TermTree, index: int, child: TermTree) -> TermTree {
    match term {
        TermTree::Related(_) => TermTree::Related(Box::new(child)),
        TermTree::Not(_) => TermTree::Not(Box::new(child)),
        TermTree::And(terms) => TermTree::And(terms.update(index, child)),
        TermTree::Or(terms) => TermTree::Or(terms.update(index, child)),
        _ => term,
    }
}

/// The term at a path, followed from position `i` of the path on.
pub open spec fn term_at(term: TermTree, path: Seq<usize>, i: int) -> Option<TermTree>
    decreases path.len() - i,
{
    if i < 0 || i >= path.len() {
        Some(term)
    } else {
        match child_at(term, path[i] as int) {
            Some(child) => term_at(child, path, i + 1),
            None => None,
        }
    }
}

/// The term with the term at a path replaced, followed from position `i` on.
pub open spec fn replaced_at(term: TermTree, path: Seq<usize>, i: int, new: TermTree) -> TermTree
    decreases path.len() - i,
{
    if i < 0 || i >= path.len() {
        new
    } else {
        match child_at(term, path[i] as int) {
            Some(child) => with_child(
                term,
                path[i] as int,
                replaced_at(child, path, i + 1, new),
            ),
            None => term,
        }
    }
}

/// What a path names after an edit: the new term at the edited path, and the
/// same as before at every path that parts from it.
pub proof fn edits_stay_at_their_path(
    root: TermTree,
    edited: Seq<usize>,
    other: Seq<usize>,
    new: TermTree,
    split: int,
)
    requires
        term_at(root, edited, 0) is Some,
        0 <= split < edited.len(),
        split < other.len(),
        forall|i: int| 0 <= i < split ==> edited[i] == other[i],
        edited[split] != other[split],
    ensures
        term_at(replaced_at(root, edited, 0, new), edited, 0) == Some(new),
        term_at(replaced_at(root, edited, 0, new), other, 0) == term_at(root, other, 0),
{
    lemma_read_back(root, edited, 0, new);
    lemma_elsewhere(root, edited, other, 0, new, split);
}

proof fn lemma_child_back(term: TermTree, index: int, child: TermTree, other: int)
    requires
        child_at(term, index) is Some,
    ensures
        child_at(with_child(term, index, child), index) == Some(child),
        other != index ==> child_at(with_child(term, index, child), other) == child_at(term, other),
{
}

proof fn lemma_read_back(term: TermTree, path: Seq<usize>, i: int, new: TermTree)
    requires
        0 <= i <= path.len(),
        term_at(term, path, i) is Some,
    ensures
        term_at(replaced_at(term, path, i, new), path, i) == Some(new),
    decreases path.len() - i,
{
    if i < path.len() {
        let child = child_at(term, path[i] as int)->0;
        lemma_read_back(child, path, i + 1, new);
        lemma_child_back(term, path[i] as int, replaced_at(child, path, i + 1, new), 0);
    }
}

proof fn lemma_elsewhere(
    term: TermTree,
    edited: Seq<usize>,
    other: Seq<usize>,
    i: int,
    new: TermTree,
    split: int,
)
    requires
        0 <= i <= split < edited.len(),
        split < other.len(),
        term_at(term, edited, i) is Some,
        forall|k: int| 0 <= k < split ==> edited[k] == other[k],
        edited[split] != other[split],
    ensures
        term_at(replaced_at(term, edited, i, new), other, i) == term_at(term, other, i),
    decreases split - i,
{
    let child = child_at(term, edited[i] as int)->0;
    let inner = replaced_at(child, edited, i + 1, new);
    lemma_child_back(term, edited[i] as int, inner, other[i] as int);
    if i < split {
        lemma_elsewhere(child, edited, other, i + 1, new, split);
    }
}

/// The term at a path, if the path leads anywhere.
fn find_term<'a>(term: &'a QueryTermDto, path: &Vec<usize>, i: usize) -> (r: Option<
    &'a QueryTermDto,
>)
    requires
        i <= path.len(),
    ensures
        match r {
            Some(found) => term_at(term.tree(), path@, i as int) == Some(found.tree()),
            None => term_at(term.tree(), path@, i as int) is None,
        },
    decreases path.len() - i,
{
    if i == path.len() {
        return Some(term);
    }
    let head: usize = path[i];
    match term {
        QueryTermDto::Related { to } => if head == 0 {
            find_term(to, path, i + 1)
        } else {
            None
        },
        QueryTermDto::Not { term: inner } => if head == 0 {
            find_term(inner, path, i + 1)
        } else {
            None
        },
        QueryTermDto::And { terms } => if head < terms.len() {
            assert(term_trees(terms@)[head as int] == terms@[head as int].tree());
            find_term(&terms[head], path, i + 1)
        } else {
            None
        },
        QueryTermDto::Or { terms } => if head < terms.len() {
            assert(term_trees(terms@)[head as int] == terms@[head as int].tree());
            find_term(&terms[head], path, i + 1)
        } else {
            None
        },
        _ => None,
    }
}

proof fn lemma_updated_trees(before: Seq<QueryTermDto>, index: int, term: QueryTermDto)
    requires
        0 <= index < before.len(),
    ensures
        term_trees(before.update(index, term)) == term_trees(before).update(index, term.tree()),
{
    assert(term_trees(before.update(index, term)) =~= term_trees(before).update(
        index,
        term.tree(),
    ));
}

/// Puts a term at a path that leads somewhere, in place of what was there.
fn put_term(term: &mut QueryTermDto, path: &Vec<usize>, i: usize, new: QueryTermDto)
    requires
        i <= path.len(),
        term_at(old(term).tree(), path@, i as int) is Some,
    ensures
        final(term).tree() == replaced_at(old(term).tree(), path@, i as int, new.tree()),
    decreases path.len() - i,
{
    if i == path.len() {
        *term = new;
        return;
    }
    let head: usize = path[i];
    match term {
        QueryTermDto::Related { to } => {
            put_term(to, path, i + 1, new);
        },
        QueryTermDto::Not { term: inner } => {
            put_term(inner, path, i + 1, new);
        },
        QueryTermDto::And { terms } => {
            let ghost before = terms@;
            assert(term_trees(before)[head as int] == before[head as int].tree());
            put_term(&mut terms[head], path, i + 1, new);
            proof {
                lemma_updated_trees(before, head as int, terms@[head as int]);
                assert(terms@ =~= before.update(head as int, terms@[head as int]));
            }
        },
        QueryTermDto::Or { terms } => {
            let ghost before = terms@;
            assert(term_trees(before)[head as int] == before[head as int].tree());
            put_term(&mut terms[head], path, i + 1, new);
            proof {
                lemma_updated_trees(before, head as int, terms@[head as int]);
                assert(terms@ =~= before.update(head as int, terms@[head as int]));
            }
        },
        _ => {},
    }
}

fn copy_path(path: &Vec<usize>) -> (r: Vec<usize>)
    ensures
        r@ == path@,
{
    let copy = path.clone();
    assert(copy@ =~= path@);
    copy
}

/// The kind that follows a kind in the editor's cycle.
pub open spec fn next_kind(kind: FactKindDto) -> FactKindDto {
    match kind {
        FactKindDto::Object => FactKindDto::Source,
        FactKindDto::Source => FactKindDto::Parameter,
        FactKindDto::Parameter => FactKindDto::Hypothesis,
        FactKindDto::Hypothesis => FactKindDto::Object,
    }
}

/// Four steps lead around the cycle of kinds.
pub proof fn kinds_cycle(kind: FactKindDto)
    ensures
        next_kind(next_kind(next_kind(next_kind(kind)))) == kind,
        next_kind(kind) != kind,
{
}

/// A term wrapped in an operator.
pub open spec fn wrapped(term: TermTree, operator: QueryWrapOperator) -> TermTree {
    match operator {
        QueryWrapOperator::And => TermTree::And(seq![term]),
        QueryWrapOperator::Or => TermTree::Or(seq![term]),
        QueryWrapOperator::Not => TermTree::Not(Box::new(term)),
        QueryWrapOperator::Related => TermTree::Related(Box::new(term)),
    }
}

/// The children of a list operator.
pub open spec fn list_of(term: TermTree) -> Option<Seq<TermTree>> {
    match term {
        TermTree::And(terms) => Some(terms),
        TermTree::Or(terms) => Some(terms),
        _ => None,
    }
}

/// A list operator with other children.
pub open spec fn with_list(term: TermTree, terms: Seq<TermTree>) -> TermTree {
    match term {
        TermTree::And(_) => TermTree::And(terms),
        _ => TermTree::Or(terms),
    }
}

/// What a draft is: its term, the selected path, and whether it was edited.
pub struct DraftView {
    pub root: TermTree,
    pub selected: Seq<usize>,
    pub dirty: bool,
}

/// An editable query term.
#[derive(Debug, PartialEq, Eq)]
pub struct QueryBuilderState {
    root: QueryTermDto,
    selected_path: Vec<usize>,
    dirty: bool,
}

impl View for QueryBuilderState {
    type V = DraftView;

    closed spec fn view(&self) -> DraftView {
        DraftView { root: self.root.tree(), selected: self.selected_path@, dirty: self.dirty }
    }
}

/// The draft after its selected term was replaced.
pub open spec fn edited(draft: DraftView, new: TermTree, selected: Seq<usize>) -> DraftView {
    DraftView {
        root: replaced_at(draft.root, draft.selected, 0, new),
        selected,
        dirty: true,
    }
}

/// The number `delta` away from a proposal, if it is in range and not zero.
pub open spec fn moved_proposal(proposal: u64, delta: i64) -> Option<u64> {
    if 0 < proposal + delta <= u64::MAX {
        Some((proposal + delta) as u64)
    } else {
        None
    }
}

/// An edit of a draft.
pub enum DraftEdit {
    Select(Seq<usize>),
    CycleKind,
    Wrap(QueryWrapOperator),
    Append(FactKindDto),
    Adjust(i64),
    Remove,
}

/// The draft after an edit, or why the edit is refused.
pub open spec fn after_edit(draft: DraftView, edit: DraftEdit) -> Result<DraftView, BuilderFault> {
    let selected = draft.selected;
    match edit {
        DraftEdit::Select(path) => match term_at(draft.root, path, 0) {
            None => Err(BuilderFault::UnknownPath(path)),
            Some(_) => Ok(DraftView { selected: path, ..draft }),
        },
        DraftEdit::CycleKind => match term_at(draft.root, selected, 0) {
            None => Err(BuilderFault::UnknownPath(selected)),
            Some(TermTree::Kind(kind)) => Ok(
                edited(draft, TermTree::Kind(next_kind(kind)), selected),
            ),
            Some(_) => Err(BuilderFault::ExpectedKind(selected)),
        },
        DraftEdit::Wrap(operator) => match term_at(draft.root, selected, 0) {
            None => Err(BuilderFault::UnknownPath(selected)),
            Some(term) => Ok(edited(draft, wrapped(term, operator), selected.push(0))),
        },
        DraftEdit::Append(kind) => match term_at(draft.root, selected, 0) {
            None => Err(BuilderFault::UnknownPath(selected)),
            Some(term) => match list_of(term) {
                None => Err(BuilderFault::ExpectedList(selected)),
                Some(terms) => Ok(
                    edited(
                        draft,
                        with_list(term, terms.push(TermTree::Kind(kind))),
                        selected.push(terms.len() as usize),
                    ),
                ),
            },
        },
        DraftEdit::Adjust(delta) => match term_at(draft.root, selected, 0) {
            None => Err(BuilderFault::UnknownPath(selected)),
            Some(TermTree::NotExplainedBy(proposal)) => match moved_proposal(proposal, delta) {
                None => Err(BuilderFault::InvalidProposalId),
                Some(moved) => Ok(edited(draft, TermTree::NotExplainedBy(moved), selected)),
            },
            Some(_) => Err(BuilderFault::ExpectedProposal(selected)),
        },
        DraftEdit::Remove => {
            let parent = selected.drop_last();
            if selected.len() == 0 {
                Err(BuilderFault::CannotRemoveRoot)
            } else {
                match term_at(draft.root, parent, 0) {
                    None => Err(BuilderFault::UnknownPath(parent)),
                    Some(term) => match list_of(term) {
                        None => Err(BuilderFault::ExpectedList(parent)),
                        Some(terms) => if selected.last() >= terms.len() {
                            Err(BuilderFault::UnknownPath(selected))
                        } else {
                            Ok(
                                DraftView {
                                    root: replaced_at(
                                        draft.root,
                                        parent,
                                        0,
                                        with_list(term, terms.remove(selected.last() as int)),
                                    ),
                                    selected: parent,
                                    dirty: true,
                                },
                            )
                        },
                    },
                }
            }
        },
    }
}

/// Whether an edit went as it should: the draft changes only if it is not refused.
pub open spec fn edits(
    before: DraftView,
    edit: DraftEdit,
    outcome: Result<(), QueryBuilderRefusal>,
    after: DraftView,
) -> bool {
    match after_edit(before, edit) {
        Ok(draft) => outcome is Ok && after == draft,
        Err(fault) => outcome matches Err(refusal) && refusal@ == fault && after == before,
    }
}

impl QueryBuilderState {
    /// A draft of a term, with the root selected.
    pub fn new(root: QueryTermDto) -> (r: Self)
        ensures
            r@ == (DraftView {
                root: root.tree(),
                selected: Seq::<usize>::empty(),
                dirty: false,
            }),
    {
        let r = QueryBuilderState { root, selected_path: Vec::new(), dirty: false };
        assert(r.selected_path@ =~= Seq::<usize>::empty());
        r
    }

    /// The term.
    pub fn root(&self) -> (r: &QueryTermDto)
        ensures
            r.tree() == self@.root,
    {
        &self.root
    }

    /// The selected path.
    pub fn selected_path(&self) -> (r: &Vec<usize>)
        ensures
            r@ == self@.selected,
    {
        &self.selected_path
    }

    /// Whether the draft was edited since it was accepted.
    pub fn is_dirty(&self) -> (r: bool)
        ensures
            r == self@.dirty,
    {
        self.dirty
    }

    /// Selects the term at a path.
    pub fn select(&mut self, path: Vec<usize>) -> (r: Result<(), QueryBuilderRefusal>)
        ensures
            edits(old(self)@, DraftEdit::Select(path@), r, final(self)@),
    {
        if find_term(&self.root, &path, 0).is_none() {
            return Err(QueryBuilderRefusal::UnknownPath(path));
        }
        self.selected_path = path;
        Ok(())
    }

    /// Moves the selected kind on to the next.
    pub fn cycle_selected_kind(&mut self) -> (r: Result<(), QueryBuilderRefusal>)
        ensures
            edits(old(self)@, DraftEdit::CycleKind, r, final(self)@),
    {
        let path = copy_path(&self.selected_path);
        let next = match find_term(&self.root, &path, 0) {
            None => {
                return Err(QueryBuilderRefusal::UnknownPath(path));
            },
            Some(QueryTermDto::Kind { kind }) => match kind {
                FactKindDto::Object => FactKindDto::Source,
                FactKindDto::Source => FactKindDto::Parameter,
                FactKindDto::Parameter => FactKindDto::Hypothesis,
                FactKindDto::Hypothesis => FactKindDto::Object,
            },
            Some(_) => {
                return Err(QueryBuilderRefusal::ExpectedKind(path));
            },
        };
        put_term(&mut self.root, &path, 0, QueryTermDto::Kind { kind: next });
        self.dirty = true;
        Ok(())
    }

    /// Wraps the selected term in an operator and keeps it selected.
    pub fn wrap_selected(&mut self, operator: QueryWrapOperator) -> (r: Result<
        (),
        QueryBuilderRefusal,
    >)
        ensures
            edits(old(self)@, DraftEdit::Wrap(operator), r, final(self)@),
    {
        let path = copy_path(&self.selected_path);
        let previous = match find_term(&self.root, &path, 0) {
            None => {
                return Err(QueryBuilderRefusal::UnknownPath(path));
            },
            Some(term) => term.copy(),
        };
        let ghost inner = previous.tree();
        let wrapped_term = match operator {
            QueryWrapOperator::And => {
                let mut terms: Vec<QueryTermDto> = Vec::new();
                terms.push(previous);
                assert(term_trees(terms@) =~= seq![inner]);
                QueryTermDto::And { terms }
            },
            QueryWrapOperator::Or => {
                let mut terms: Vec<QueryTermDto> = Vec::new();
                terms.push(previous);
                assert(term_trees(terms@) =~= seq![inner]);
                QueryTermDto::Or { terms }
            },
            QueryWrapOperator::Not => QueryTermDto::Not { term: Box::new(previous) },
            QueryWrapOperator::Related => QueryTermDto::Related { to: Box::new(previous) },
        };
        assert(wrapped_term.tree() == wrapped(inner, operator));
        put_term(&mut self.root, &path, 0, wrapped_term);
        self.selected_path.push(0);
        self.dirty = true;
        Ok(())
    }

    /// Appends a kind to the selected list and selects it.
    pub fn append_kind(&mut self, kind: FactKindDto) -> (r: Result<(), QueryBuilderRefusal>)
        ensures
            edits(old(self)@, DraftEdit::Append(kind), r, final(self)@),
    {
        let path = copy_path(&self.selected_path);
        let mut list = match find_term(&self.root, &path, 0) {
            None => {
                return Err(QueryBuilderRefusal::UnknownPath(path));
            },
            Some(term) => match term {
                QueryTermDto::And { .. } => term.copy(),
                QueryTermDto::Or { .. } => term.copy(),
                _ => {
                    return Err(QueryBuilderRefusal::ExpectedList(path));
                },
            },
        };
        let ghost before = list.tree();
        let last: usize;
        match &mut list {
            QueryTermDto::And { terms } => {
                last = terms.len();
                let ghost inner = terms@;
                terms.push(QueryTermDto::Kind { kind });
                assert(term_trees(terms@) =~= term_trees(inner).push(TermTree::Kind(kind)));
            },
            QueryTermDto::Or { terms } => {
                last = terms.len();
                let ghost inner = terms@;
                terms.push(QueryTermDto::Kind { kind });
                assert(term_trees(terms@) =~= term_trees(inner).push(TermTree::Kind(kind)));
            },
            _ => {
                last = 0;
            },
        }
        assert(list.tree() == with_list(before, list_of(before)->0.push(TermTree::Kind(kind))));
        put_term(&mut self.root, &path, 0, list);
        self.selected_path.push(last);
        self.dirty = true;
        Ok(())
    }

    /// Moves the selected proposal number.
    pub fn adjust_proposal_id(&mut self, delta: i64) -> (r: Result<(), QueryBuilderRefusal>)
        ensures
            edits(old(self)@, DraftEdit::Adjust(delta), r, final(self)@),
    {
        let path = copy_path(&self.selected_path);
        let proposal: u64 = match find_term(&self.root, &path, 0) {
            None => {
                return Err(QueryBuilderRefusal::UnknownPath(path));
            },
            Some(QueryTermDto::NotExplainedBy { proposal_id }) => *proposal_id,
            Some(_) => {
                return Err(QueryBuilderRefusal::ExpectedProposal(path));
            },
        };
        let sum: i128 = proposal as i128 + delta as i128;
        if sum <= 0 || sum > u64::MAX as i128 {
            return Err(QueryBuilderRefusal::InvalidProposalId);
        }
        put_term(
            &mut self.root,
            &path,
            0,
            QueryTermDto::NotExplainedBy { proposal_id: sum as u64 },
        );
        self.dirty = true;
        Ok(())
    }

    /// Removes the selected term from its list and selects the list.
    pub fn remove_selected(&mut self) -> (r: Result<(), QueryBuilderRefusal>)
        ensures
            edits(old(self)@, DraftEdit::Remove, r, final(self)@),
    {
        if self.selected_path.len() == 0 {
            return Err(QueryBuilderRefusal::CannotRemoveRoot);
        }
        let mut parent_path = copy_path(&self.selected_path);
        let index: usize = parent_path[parent_path.len() - 1];
        parent_path.truncate(self.selected_path.len() - 1);
        assert(parent_path@ =~= self.selected_path@.drop_last());
        let mut list = match find_term(&self.root, &parent_path, 0) {
            None => {
                return Err(QueryBuilderRefusal::UnknownPath(parent_path));
            },
            Some(term) => match term {
                QueryTermDto::And { terms } => {
                    assert(term_trees(terms@).len() == terms@.len());
                    if index >= terms.len() {
                        return Err(
                            QueryBuilderRefusal::UnknownPath(copy_path(&self.selected_path)),
                        );
                    }
                    term.copy()
                },
                QueryTermDto::Or { terms } => {
                    assert(term_trees(terms@).len() == terms@.len());
                    if index >= terms.len() {
                        return Err(
                            QueryBuilderRefusal::UnknownPath(copy_path(&self.selected_path)),
                        );
                    }
                    term.copy()
                },
                _ => {
                    return Err(QueryBuilderRefusal::ExpectedList(parent_path));
                },
            },
        };
        let ghost before = list.tree();
        match &mut list {
            QueryTermDto::And { terms } => {
                let ghost inner = terms@;
                assert(term_trees(inner).len() == inner.len());
                terms.remove(index);
                assert(term_trees(terms@) =~= term_trees(inner).remove(index as int));
            },
            QueryTermDto::Or { terms } => {
                let ghost inner = terms@;
                assert(term_trees(inner).len() == inner.len());
                terms.remove(index);
                assert(term_trees(terms@) =~= term_trees(inner).remove(index as int));
            },
            _ => {},
        }
        assert(list.tree() == with_list(before, list_of(before)->0.remove(index as int)));
        put_term(&mut self.root, &parent_path, 0, list);
        self.selected_path = parent_path;
        self.dirty = true;
        Ok(())
    }

    /// Takes over an accepted term: a clean draft with the root selected.
    pub fn accept(&mut self, root: QueryTermDto)
        ensures
            final(self)@ == (DraftView {
                root: root.tree(),
                selected: Seq::<usize>::empty(),
                dirty: false,
            }),
    {
        self.root = root;
        self.selected_path = Vec::new();
        self.dirty = false;
        assert(self.selected_path@ =~= Seq::<usize>::empty());
    }
}

// ----- rows -------------------------------------------------------------

/// One row of a flattened term: its path, its depth and its label.
#[derive(Debug, PartialEq, Eq)]
pub struct TermRow {
    pub path: Vec<usize>,
    pub depth: usize,
    pub label: String,
}

/// What a row holds.
pub struct RowView {
    pub path: Seq<usize>,
    pub depth: nat,
    pub label: Seq<char>,
}

impl View for TermRow {
    type V = RowView;

    open spec fn view(&self) -> RowView {
        RowView { path: self.path@, depth: self.depth as nat, label: self.label@ }
    }
}

/// What a list of rows holds.
pub open spec fn row_views(rows: Seq<TermRow>) -> Seq<RowView> {
    rows.map_values(|row: TermRow| row@)
}

/// The rows of a term and all its descendants, each parent before its children.
/// The depth of a row is the length of its path.
pub open spec fn term_rows(term: TermTree, path: Seq<usize>) -> Seq<RowView>
    decreases term, 0int,
{
    let first = seq![RowView { path, depth: path.len(), label: term_label(term) }];
    match term {
        TermTree::Related(to) => first + term_rows(*to, path.push(0)),
        TermTree::Not(inner) => first + term_rows(*inner, path.push(0)),
        TermTree::And(terms) => first + list_rows(terms, path, terms.len() as int),
        TermTree::Or(terms) => first + list_rows(terms, path, terms.len() as int),
        _ => first,
    }
}

/// The rows of the first `i` children of a list.
pub open spec fn list_rows(terms: Seq<TermTree>, path: Seq<usize>, i: int) -> Seq<RowView>
    decreases terms, i,
{
    if i <= 0 || i > terms.len() {
        Seq::empty()
    } else {
        list_rows(terms, path, i - 1) + term_rows(terms[i - 1], path.push((i - 1) as usize))
    }
}

fn visit_list(terms: &Vec<QueryTermDto>, path: &Vec<usize>, rows: &mut Vec<TermRow>)
    ensures
        row_views(final(rows)@) == row_views(old(rows)@) + list_rows(
            term_trees(terms@),
            path@,
            term_trees(terms@).len() as int,
        ),
    decreases terms@, 0int,
{
    let ghost trees = term_trees(terms@);
    let ghost before = row_views(rows@);
    let mut i: usize = 0;
    assert(row_views(rows@) =~= before + list_rows(trees, path@, 0));
    while i < terms.len()
        invariant
            i <= terms.len(),
            trees == term_trees(terms@),
            row_views(rows@) == before + list_rows(trees, path@, i as int),
        decreases terms.len() - i,
    {
        assert(trees[i as int] == terms@[i as int].tree());
        let mut child = copy_path(path);
        child.push(i);
        visit(&terms[i], &child, rows);
        assert(row_views(rows@) =~= before + list_rows(trees, path@, i as int + 1));
        i = i + 1;
    }
}

fn visit(term: &QueryTermDto, path: &Vec<usize>, rows: &mut Vec<TermRow>)
    ensures
        row_views(final(rows)@) == row_views(old(rows)@) + term_rows(term.tree(), path@),
    decreases term, 1int,
{
    let ghost before = row_views(rows@);
    let row = TermRow { path: copy_path(path), depth: path.len(), label: term.stable_label() };
    rows.push(row);
    let ghost first = seq![
        RowView { path: path@, depth: path@.len(), label: term_label(term.tree()) },
    ];
    assert(row_views(rows@) =~= before + first);
    match term {
        QueryTermDto::Related { to } => {
            let mut child = copy_path(path);
            child.push(0);
            visit(to, &child, rows);
            assert(row_views(rows@) =~= before + term_rows(term.tree(), path@));
        },
        QueryTermDto::Not { term: inner } => {
            let mut child = copy_path(path);
            child.push(0);
            visit(inner, &child, rows);
            assert(row_views(rows@) =~= before + term_rows(term.tree(), path@));
        },
        QueryTermDto::And { terms } => {
            visit_list(terms, path, rows);
            assert(row_views(rows@) =~= before + term_rows(term.tree(), path@));
        },
        QueryTermDto::Or { terms } => {
            visit_list(terms, path, rows);
            assert(row_views(rows@) =~= before + term_rows(term.tree(), path@));
        },
        _ => {},
    }
}

/// The rows that a term is shown as.
pub fn flatten_terms(root: &QueryTermDto) -> (r: Vec<TermRow>)
    ensures
        row_views(r@) == term_rows(root.tree(), Seq::empty()),
{
    let mut rows: Vec<TermRow> = Vec::new();
    let path: Vec<usize> = Vec::new();
    assert(path@ =~= Seq::<usize>::empty());
    assert(row_views(rows@) =~= Seq::<RowView>::empty());
    visit(root, &path, &mut rows);
    assert(row_views(rows@) =~= term_rows(root.tree(), Seq::empty()));
    rows
}

/// Every row of a flattened term names a path that leads to a term, and carries
/// the label of that term.
pub proof fn rows_name_terms(root: QueryTermDto, k: int)
    requires
        0 <= k < term_rows(root.tree(), Seq::empty()).len(),
    ensures
        ({
            let row = term_rows(root.tree(), Seq::empty())[k];
            &&& row.depth == row.path.len()
            &&& term_at(root.tree(), row.path, 0) matches Some(term) && row.label == term_label(
                term,
            )
        }),
{
    lemma_rows_name_terms(root.tree(), root, Seq::empty(), k);
}

proof fn lemma_term_at_extended(root: TermTree, path: Seq<usize>, i: int, index: usize)
    requires
        0 <= i <= path.len(),
        term_at(root, path, i) is Some,
    ensures
        term_at(root, path.push(index), i) == child_at(term_at(root, path, i)->0, index as int),
    decreases path.len() - i,
{
    reveal_with_fuel(term_at, 2);
    if i < path.len() {
        let child = child_at(root, path[i] as int)->0;
        lemma_term_at_extended(child, path, i + 1, index);
        assert(path.push(index)[i] == path[i]);
    } else {
        assert(path.push(index)[i] == index);
    }
}

proof fn lemma_rows_name_terms(root: TermTree, term: QueryTermDto, path: Seq<usize>, k: int)
    requires
        term_at(root, path, 0) == Some(term.tree()),
        0 <= k < term_rows(term.tree(), path).len(),
    ensures
        ({
            let row = term_rows(term.tree(), path)[k];
            &&& row.depth == row.path.len()
            &&& term_at(root, row.path, 0) matches Some(found) && row.label == term_label(found)
        }),
    decreases term, 1int,
{
    if k > 0 {
        match term {
            QueryTermDto::Related { to } => {
                lemma_term_at_extended(root, path, 0, 0);
                lemma_rows_name_terms(root, *to, path.push(0), k - 1);
            },
            QueryTermDto::Not { term: inner } => {
                lemma_term_at_extended(root, path, 0, 0);
                lemma_rows_name_terms(root, *inner, path.push(0), k - 1);
            },
            QueryTermDto::And { terms } => {
                assert(terms.len() == terms@.len());
                lemma_list_rows_name_terms(
                    root,
                    term.tree(),
                    terms@,
                    path,
                    terms@.len() as int,
                    k - 1,
                );
            },
            QueryTermDto::Or { terms } => {
                assert(terms.len() == terms@.len());
                lemma_list_rows_name_terms(
                    root,
                    term.tree(),
                    terms@,
                    path,
                    terms@.len() as int,
                    k - 1,
                );
            },
            _ => {},
        }
    }
}

proof fn lemma_list_rows_name_terms(
    root: TermTree,
    term: TermTree,
    terms: Seq<QueryTermDto>,
    path: Seq<usize>,
    i: int,
    k: int,
)
    requires
        term_at(root, path, 0) == Some(term),
        term == TermTree::And(term_trees(terms)) || term == TermTree::Or(term_trees(terms)),
        0 <= i <= terms.len() <= usize::MAX,
        0 <= k < list_rows(term_trees(terms), path, i).len(),
    ensures
        ({
            let row = list_rows(term_trees(terms), path, i)[k];
            &&& row.depth == row.path.len()
            &&& term_at(root, row.path, 0) matches Some(found) && row.label == term_label(found)
        }),
    decreases terms, i,
{
    let earlier = list_rows(term_trees(terms), path, i - 1);
    if k < earlier.len() {
        lemma_list_rows_name_terms(root, term, terms, path, i - 1, k);
    } else {
        lemma_term_at_extended(root, path, 0, (i - 1) as usize);
        assert(term_trees(terms)[i - 1] == terms[i - 1].tree());
        lemma_rows_name_terms(root, terms[i - 1], path.push((i - 1) as usize), k - earlier.len());
    }
}

/// The label of a path: its indices parted by hyphens, or `root`.
pub open spec fn path_text(path: Seq<usize>) -> Seq<char>
    decreases path.len(),
{
    if path.len() == 0 {
        "root"@
    } else if path.len() == 1 {
        decimal(path[0] as nat)
    } else {
        path_text(path.drop_last()) + "-"@ + decimal(path.last() as nat)
    }
}

/// Labels a path.
pub fn path_label(path: &Vec<usize>) -> (r: String)
    ensures
        r@ == path_text(path@),
{
    if path.len() == 0 {
        return owned("root");
    }
    let mut out = String::new();
    append_decimal(&mut out, path[0] as u64);
    let mut i: usize = 1;
    assert(path@.take(1).len() == 1);
    assert(out@ =~= path_text(path@.take(1)));
    while i < path.len()
        invariant
            1 <= i <= path.len(),
            out@ == path_text(path@.take(i as int)),
        decreases path.len() - i,
    {
        out.append("-");
        append_decimal(&mut out, path[i] as u64);
        assert(path@.take(i as int + 1).drop_last() =~= path@.take(i as int));
        assert(out@ =~= path_text(path@.take(i as int + 1)));
        i = i + 1;
    }
    assert(path@.take(i as int) =~= path@);
    out
}

// ----- laws -------------------------------------------------------------

proof fn lemma_replaced(root: TermTree, path: Seq<usize>, i: int, new: TermTree, index: usize)
    requires
        0 <= i <= path.len(),
        term_at(root, path, i) is Some,
    ensures
        term_at(replaced_at(root, path, i, new), path, i) == Some(new),
        term_at(replaced_at(root, path, i, new), path.push(index), i) == child_at(
            new,
            index as int,
        ),
    decreases path.len() - i,
{
    reveal_with_fuel(term_at, 2);
    if i < path.len() {
        let child = child_at(root, path[i] as int)->0;
        lemma_replaced(child, path, i + 1, new, index);
        assert(path.push(index)[i] == path[i]);
    } else {
        assert(path.push(index)[i] == index);
    }
}

/// A refused edit changes nothing; one that is made marks the draft as changed, unless it
/// only selects.
pub proof fn only_edits_change_the_draft(
    before: DraftView,
    edit: DraftEdit,
    outcome: Result<(), QueryBuilderRefusal>,
    after: DraftView,
)
    requires
        edits(before, edit, outcome, after),
    ensures
        outcome is Err ==> after == before,
        outcome is Ok && !(edit is Select) ==> after.dirty,
        edit is Select ==> after.root == before.root && after.dirty == before.dirty,
        edit matches DraftEdit::Select(path) ==> (outcome is Ok <==> term_at(before.root, path, 0)
            is Some) && (outcome is Ok ==> after.selected == path),
{
}

/// Kinds are cycled from objects to sources, parameters, hypotheses, and back to objects;
/// only a term of a kind can be.
pub proof fn kinds_are_cycled_in_order(
    before: DraftView,
    outcome: Result<(), QueryBuilderRefusal>,
    after: DraftView,
)
    requires
        edits(before, DraftEdit::CycleKind, outcome, after),
    ensures
        outcome is Ok <==> (term_at(before.root, before.selected, 0) matches Some(term) && term
            is Kind),
        outcome is Ok ==> after.selected == before.selected && (term_at(
            after.root,
            after.selected,
            0,
        ) matches Some(TermTree::Kind(kind)) && match term_at(
            before.root,
            before.selected,
            0,
        )->0->Kind_0 {
            FactKindDto::Object => kind == FactKindDto::Source,
            FactKindDto::Source => kind == FactKindDto::Parameter,
            FactKindDto::Parameter => kind == FactKindDto::Hypothesis,
            FactKindDto::Hypothesis => kind == FactKindDto::Object,
        }),
{
    if outcome is Ok {
        let kind = term_at(before.root, before.selected, 0)->0->Kind_0;
        lemma_replaced(before.root, before.selected, 0, TermTree::Kind(next_kind(kind)), 0);
    }
}

/// Wrapping puts the selected term into one of the operator, in its place, and goes on
/// selecting it.
pub proof fn wrapping_keeps_the_term(
    before: DraftView,
    operator: QueryWrapOperator,
    outcome: Result<(), QueryBuilderRefusal>,
    after: DraftView,
)
    requires
        edits(before, DraftEdit::Wrap(operator), outcome, after),
    ensures
        outcome is Ok <==> term_at(before.root, before.selected, 0) is Some,
        outcome is Ok ==> {
            &&& after.selected == before.selected.push(0)
            &&& term_at(after.root, after.selected, 0) == term_at(before.root, before.selected, 0)
            &&& term_at(after.root, before.selected, 0) matches Some(around) && match operator {
                QueryWrapOperator::And => around matches TermTree::And(terms) && terms.len() == 1,
                QueryWrapOperator::Or => around matches TermTree::Or(terms) && terms.len() == 1,
                QueryWrapOperator::Not => around is Not,
                QueryWrapOperator::Related => around is Related,
            }
        },
{
    if outcome is Ok {
        let term = term_at(before.root, before.selected, 0)->0;
        lemma_replaced(before.root, before.selected, 0, wrapped(term, operator), 0);
    }
}

/// Appending adds a term of the kind at the end of the selected list, leaves the others
/// and how they are joined, and selects it.
pub proof fn appending_adds_at_the_end(
    before: DraftView,
    kind: FactKindDto,
    outcome: Result<(), QueryBuilderRefusal>,
    after: DraftView,
)
    requires
        edits(before, DraftEdit::Append(kind), outcome, after),
        term_at(before.root, before.selected, 0) matches Some(TermTree::And(terms)) ==> terms.len()
            <= usize::MAX,
        term_at(before.root, before.selected, 0) matches Some(TermTree::Or(terms)) ==> terms.len()
            <= usize::MAX,
    ensures
        outcome is Ok <==> (term_at(before.root, before.selected, 0) matches Some(term) && (term
            is And || term is Or)),
        outcome is Ok ==> {
            &&& after.selected.drop_last() == before.selected
            &&& term_at(after.root, after.selected, 0) == Some(TermTree::Kind(kind))
            &&& (term_at(before.root, before.selected, 0) matches Some(TermTree::And(terms))
                ==> term_at(after.root, before.selected, 0) == Some(
                TermTree::And(terms.push(TermTree::Kind(kind))),
            ))
            &&& (term_at(before.root, before.selected, 0) matches Some(TermTree::Or(terms))
                ==> term_at(after.root, before.selected, 0) == Some(
                TermTree::Or(terms.push(TermTree::Kind(kind))),
            ))
        },
{
    if outcome is Ok {
        let term = term_at(before.root, before.selected, 0)->0;
        let terms = list_of(term)->0;
        let new = with_list(term, terms.push(TermTree::Kind(kind)));
        lemma_replaced(before.root, before.selected, 0, new, terms.len() as usize);
        assert(after.selected.drop_last() =~= before.selected);
    }
}

/// Removing takes the selected term, and no other, out of its list, and selects the list.
/// The root cannot be removed.
pub proof fn removing_takes_out_one_term(
    before: DraftView,
    outcome: Result<(), QueryBuilderRefusal>,
    after: DraftView,
)
    requires
        edits(before, DraftEdit::Remove, outcome, after),
    ensures
        before.selected.len() == 0 ==> outcome is Err,
        outcome is Ok ==> {
            &&& after.selected == before.selected.drop_last()
            &&& (term_at(before.root, after.selected, 0) matches Some(TermTree::And(terms))
                ==> before.selected.last() < terms.len() && term_at(after.root, after.selected, 0)
                == Some(TermTree::And(terms.remove(before.selected.last() as int))))
            &&& (term_at(before.root, after.selected, 0) matches Some(TermTree::Or(terms))
                ==> before.selected.last() < terms.len() && term_at(after.root, after.selected, 0)
                == Some(TermTree::Or(terms.remove(before.selected.last() as int))))
            &&& term_at(before.root, after.selected, 0) matches Some(term) && (term is And || term
                is Or)
        },
{
    if outcome is Ok {
        let parent = before.selected.drop_last();
        let term = term_at(before.root, parent, 0)->0;
        let terms = list_of(term)->0;
        let new = with_list(term, terms.remove(before.selected.last() as int));
        lemma_replaced(before.root, parent, 0, new, 0);
    }
}

/// Adjusting moves the number of a proposal by as much as is asked for, and is refused
/// where that leads to no number of a proposal.
pub proof fn adjusting_moves_the_proposal(
    before: DraftView,
    delta: i64,
    outcome: Result<(), QueryBuilderRefusal>,
    after: DraftView,
)
    requires
        edits(before, DraftEdit::Adjust(delta), outcome, after),
    ensures
        outcome is Ok <==> (term_at(before.root, before.selected, 0) matches Some(
            TermTree::NotExplainedBy(proposal),
        ) && 1 <= proposal + delta <= u64::MAX),
        outcome is Ok ==> after.selected == before.selected && (term_at(
            after.root,
            after.selected,
            0,
        ) matches Some(TermTree::NotExplainedBy(moved)) && moved == term_at(
            before.root,
            before.selected,
            0,
        )->0->NotExplainedBy_0 + delta),
{
    if outcome is Ok {
        let proposal = term_at(before.root, before.selected, 0)->0->NotExplainedBy_0;
        lemma_replaced(
            before.root,
            before.selected,
            0,
            TermTree::NotExplainedBy(moved_proposal(proposal, delta)->0),
            0,
        );
    }
}

proof fn lemma_list_rows_hold(terms: Seq<TermTree>, path: Seq<usize>, i: int, m: int, row: RowView)
    requires
        0 <= m < i <= terms.len(),
        term_rows(terms[m], path.push(m as usize)).contains(row),
    ensures
        list_rows(terms, path, i).contains(row),
    decreases i,
{
    let before = list_rows(terms, path, i - 1);
    let last = term_rows(terms[i - 1], path.push((i - 1) as usize));
    let out = list_rows(terms, path, i);
    if m < i - 1 {
        lemma_list_rows_hold(terms, path, i - 1, m, row);
        let k = choose|k: int| 0 <= k < before.len() && before[k] == row;
        assert(out[k] == row);
    } else {
        let k = choose|k: int| 0 <= k < last.len() && last[k] == row;
        assert(out[before.len() + k] == row);
    }
}

proof fn lemma_rows_complete(term: TermTree, prefix: Seq<usize>, path: Seq<usize>, i: int)
    requires
        0 <= i <= path.len(),
        prefix == path.take(i),
        term_at(term, path, i) is Some,
    ensures
        term_rows(term, prefix).contains(
            RowView { path, depth: path.len(), label: term_label(term_at(term, path, i)->0) },
        ),
    decreases path.len() - i,
{
    let row = RowView { path, depth: path.len(), label: term_label(term_at(term, path, i)->0) };
    let out = term_rows(term, prefix);
    if i == path.len() {
        assert(prefix =~= path);
        assert(out[0] == row);
    } else {
        let index = path[i] as int;
        let child = child_at(term, index)->0;
        assert(path.take(i + 1) =~= prefix.push(path[i]));
        lemma_rows_complete(child, prefix.push(path[i]), path, i + 1);
        let rest = match term {
            TermTree::Related(to) => term_rows(*to, prefix.push(0)),
            TermTree::Not(inner) => term_rows(*inner, prefix.push(0)),
            TermTree::And(terms) => list_rows(terms, prefix, terms.len() as int),
            TermTree::Or(terms) => list_rows(terms, prefix, terms.len() as int),
            _ => Seq::empty(),
        };
        match term {
            TermTree::And(terms) => {
                lemma_list_rows_hold(terms, prefix, terms.len() as int, index, row);
            },
            TermTree::Or(terms) => {
                lemma_list_rows_hold(terms, prefix, terms.len() as int, index, row);
            },
            _ => {},
        }
        assert(rest.contains(row));
        let k = choose|k: int| 0 <= k < rest.len() && rest[k] == row;
        assert(out[k + 1] == row);
    }
}

/// Every term of a query has a row: whatever path leads to a term is the path of one.
pub proof fn every_term_has_a_row(root: TermTree, path: Seq<usize>)
    requires
        term_at(root, path, 0) is Some,
    ensures
        exists|k: int|
            0 <= k < term_rows(root, Seq::empty()).len() && (#[trigger] term_rows(
                root,
                Seq::empty(),
            )[k]).path == path,
        term_rows(root, Seq::empty())[0].path.len() == 0,
{
    assert(path.take(0) =~= Seq::<usize>::empty());
    lemma_rows_complete(root, Seq::empty(), path, 0);
    let row = RowView { path, depth: path.len(), label: term_label(term_at(root, path, 0)->0) };
    let out = term_rows(root, Seq::empty());
    let k = choose|k: int| 0 <= k < out.len() && out[k] == row;
    assert(out[k].path == path);
}

} // verus!
