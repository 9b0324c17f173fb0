//! What the panels of the workbench pane show.
//!
//! Every panel is worked out from the state of the pane alone. Drawing it needs no
//! further decision.

use vstd::prelude::*;
use vstd::string::*;

use crate::navigation::{EntityRefDto, EntityRefKey, HitView, QueryHitDto};
use crate::pane::{
    notice_detail, notice_label, short_digest, PaneView, ReadingQueryView, AMBER, DIM, LIME,
};
use crate::protocol::ReadingInputDto;
use crate::query_builder::{
    flatten_terms, path_label, path_text, row_views, term_rows, RowView, TermRow,
};
use crate::query_document::{latest_hits, AuditionTarget, QueryResultSnapshot};
use crate::reading_diff::{DiffView, ReadingDiff};
use crate::reading_merge::{MergeView, ReadingMergePlan};
use crate::text::{
    append_bool, append_decimal, bool_text, decimal, decimal_text, hex_text, optional_text, owned,
};
use crate::wording::HostWords;

verus! {

// ----- header -------------------------------------------------------------

/// The header of the pane.
#[derive(Debug, PartialEq, Eq)]
pub struct HeaderPanel {
    pub title: String,
    pub document: String,
    pub status: &'static str,
    pub color: u32,
    /// The text of the notice.
    pub detail: String,
}

/// Which version of the document is shown, and how many pages it has.
pub open spec fn document_line(id: u64, revision: u64, pages: nat) -> Seq<char> {
    "document "@ + decimal(id as nat) + " · revision "@ + decimal(revision as nat) + " · "@
        + decimal(pages) + " pages"@
}

impl ReadingQueryView {
    /// What the header shows, given the words of the host for what stands in a refusal.
    pub fn header_panel(&self, host: &HostWords) -> (r: HeaderPanel)
        ensures
            r.title@ == self@.document.title@,
            r.document@ == document_line(
                self@.document.id.0,
                self@.document.revision,
                self@.document.results@.len(),
            ),
            (r.status@, r.color) == notice_label(self@.notice),
            r.detail@ == notice_detail(self@.notice, *host),
    {
        let document = self.model().document();
        let mut line = owned("document ");
        append_decimal(&mut line, document.id.0);
        line.append(" · revision ");
        append_decimal(&mut line, document.revision);
        line.append(" · ");
        append_decimal(&mut line, document.results.len() as u64);
        line.append(" pages");
        let (status, color) = self.notice().label();
        HeaderPanel {
            title: document.title.clone(),
            document: line,
            status,
            color,
            detail: self.notice().detail(host),
        }
    }
}

// ----- query builder ------------------------------------------------------

/// A term of the draft, as it is shown.
#[derive(Debug, PartialEq, Eq)]
pub struct BuilderRow {
    pub id: String,
    pub path: Vec<usize>,
    pub depth: usize,
    pub label: String,
    pub selected: bool,
}

/// What a row of the query builder holds.
pub struct BuilderRowView {
    pub id: Seq<char>,
    pub path: Seq<usize>,
    pub depth: nat,
    pub label: Seq<char>,
    pub selected: bool,
}

impl View for BuilderRow {
    type V = BuilderRowView;

    open spec fn view(&self) -> BuilderRowView {
        BuilderRowView {
            id: self.id@,
            path: self.path@,
            depth: self.depth as nat,
            label: self.label@,
            selected: self.selected,
        }
    }
}

/// How a term is shown while the term at `selected` is selected.
pub open spec fn builder_row(row: RowView, selected: Seq<usize>) -> BuilderRowView {
    BuilderRowView {
        id: "reading-query-term-"@ + path_text(row.path),
        path: row.path,
        depth: row.depth,
        label: row.label,
        selected: row.path == selected,
    }
}

/// What the rows of the query builder hold.
pub open spec fn builder_views(rows: Seq<BuilderRow>) -> Seq<BuilderRowView> {
    rows.map_values(|row: BuilderRow| row@)
}

/// The query builder: the draft term by term, and whether it was edited.
#[derive(Debug, PartialEq, Eq)]
pub struct QueryBuilderPanel {
    pub rows: Vec<BuilderRow>,
    pub hint: &'static str,
    pub hint_color: u32,
}

/// What is said about the draft.
pub open spec fn draft_hint(dirty: bool) -> (Seq<char>, u32) {
    if dirty {
        ("Draft changed · next run creates a new query-document revision"@, AMBER)
    } else {
        ("Draft matches the persisted query revision"@, DIM)
    }
}

fn same_path(left: &Vec<usize>, right: &Vec<usize>) -> (r: bool)
    ensures
        r == (left@ == right@),
{
    if left.len() != right.len() {
        return false;
    }
    let mut i: usize = 0;
    while i < left.len()
        invariant
            i <= left.len(),
            left@.len() == right@.len(),
            forall|k: int| 0 <= k < i ==> left@[k] == right@[k],
        decreases left.len() - i,
    {
        if left[i] != right[i] {
            return false;
        }
        i = i + 1;
    }
    assert(left@ =~= right@);
    true
}

fn show_term(row: &TermRow, selected: &Vec<usize>) -> (r: BuilderRow)
    ensures
        r@ == builder_row(row@, selected@),
{
    let mut id = owned("reading-query-term-");
    id.append(path_label(&row.path).as_str());
    let path = row.path.clone();
    assert(path@ =~= row.path@);
    BuilderRow {
        id,
        path,
        depth: row.depth,
        label: row.label.clone(),
        selected: same_path(&row.path, selected),
    }
}

impl ReadingQueryView {
    /// What the query builder shows.
    pub fn query_builder_panel(&self) -> (r: QueryBuilderPanel)
        ensures
            builder_views(r.rows@) == term_rows(self@.draft.root, Seq::empty()).map_values(
                |row: RowView| builder_row(row, self@.draft.selected),
            ),
            (r.hint@, r.hint_color) == draft_hint(self@.draft.dirty),
    {
        let terms = flatten_terms(self.builder().root());
        let selected = self.builder().selected_path();
        let ghost all = row_views(terms@);
        let ghost show = |row: RowView| builder_row(row, selected@);
        let mut rows: Vec<BuilderRow> = Vec::new();
        assert(builder_views(rows@) =~= all.take(0).map_values(show));
        let mut i: usize = 0;
        while i < terms.len()
            invariant
                i <= terms.len(),
                all == row_views(terms@),
                show == (|row: RowView| builder_row(row, selected@)),
                builder_views(rows@) == all.take(i as int).map_values(show),
            decreases terms.len() - i,
        {
            let row = show_term(&terms[i], selected);
            assert(all[i as int] == terms@[i as int]@);
            assert(row@ == show(all[i as int]));
            let ghost before = rows@;
            rows.push(row);
            assert(builder_views(rows@) =~= builder_views(before).push(row@));
            assert(all.take(i as int + 1).map_values(show) =~= all.take(i as int).map_values(
                show,
            ).push(show(all[i as int])));
            i = i + 1;
        }
        assert(all.take(i as int) =~= all);
        let dirty = self.builder().is_dirty();
        QueryBuilderPanel {
            rows,
            hint: if dirty {
                "Draft changed · next run creates a new query-document revision"
            } else {
                "Draft matches the persisted query revision"
            },
            hint_color: if dirty {
                AMBER
            } else {
                DIM
            },
        }
    }
}

// ----- results ------------------------------------------------------------

/// A hit of the newest result, as it is shown.
#[derive(Debug, PartialEq, Eq)]
pub struct ResultRow {
    pub fact: EntityRefDto,
    pub detail: String,
    pub selected: bool,
}

/// What a result row holds.
pub struct ResultRowView {
    pub fact: EntityRefKey,
    pub detail: Seq<char>,
    pub selected: bool,
}

impl View for ResultRow {
    type V = ResultRowView;

    open spec fn view(&self) -> ResultRowView {
        ResultRowView { fact: self.fact@, detail: self.detail@, selected: self.selected }
    }
}

/// How a hit was found and what of it can be heard.
pub open spec fn hit_detail(hit: HitView) -> Seq<char> {
    "rule "@ + hit.rule + " · "@ + decimal(hit.premises.len()) + " premises · "@ + (
    match hit.extent {
        Some(extent) => decimal(extent.regions.len()) + " regions"@,
        None => "no audition geometry"@,
    })
}

/// How hit `i` of the newest result is shown.
pub open spec fn result_row(pane: PaneView, i: int) -> ResultRowView {
    let hit = latest_hits(pane.document)[i]@;
    ResultRowView {
        fact: hit.fact,
        detail: hit_detail(hit),
        selected: pane.selected_row matches Some(row) && row == i,
    }
}

fn show_hit(hit: &QueryHitDto, selected: bool) -> (r: ResultRow)
    ensures
        r@ == (ResultRowView { fact: hit@.fact, detail: hit_detail(hit@), selected }),
{
    let mut extent = String::new();
    match &hit.extent {
        Some(geometry) => {
            append_decimal(&mut extent, geometry.regions.len() as u64);
            extent.append(" regions");
            assert(extent@ =~= decimal(geometry.regions@.len()) + " regions"@);
        },
        None => {
            extent = owned("no audition geometry");
        },
    }
    let mut detail = owned("rule ");
    detail.append(hit.derivation.rule.as_str());
    detail.append(" · ");
    append_decimal(&mut detail, hit.derivation.premises.len() as u64);
    detail.append(" premises · ");
    detail.append(extent.as_str());
    ResultRow { fact: hit.fact.clone(), detail, selected }
}

impl ReadingQueryView {
    /// What is shown of the newest result. Where there is none, or an empty one,
    /// that is shown as no rows.
    pub fn results_panel(&self) -> (r: Vec<ResultRow>)
        ensures
            r@.len() == latest_hits(self@.document).len(),
            forall|i: int| 0 <= i < r@.len() ==> (#[trigger] r@[i])@ == result_row(self@, i),
    {
        let mut rows: Vec<ResultRow> = Vec::new();
        let hits = match self.model().rows() {
            Some(hits) => hits,
            None => {
                return rows;
            },
        };
        let selected = self.model().selected_row();
        let mut i: usize = 0;
        while i < hits.len()
            invariant
                i <= hits.len(),
                hits@ == latest_hits(self@.document),
                selected == self@.selected_row,
                rows@.len() == i,
                forall|k: int| 0 <= k < i ==> (#[trigger] rows@[k])@ == result_row(self@, k),
            decreases hits.len() - i,
        {
            let here = match selected {
                Some(row) => row == i,
                None => false,
            };
            rows.push(show_hit(&hits[i], here));
            i = i + 1;
        }
        rows
    }
}

// ----- provenance ---------------------------------------------------------

/// A page of the document's history, as it is shown.
#[derive(Debug, PartialEq, Eq)]
pub struct ProvenanceRow {
    pub line: String,
    pub source: Option<String>,
}

/// What a provenance row holds.
pub struct ProvenanceRowView {
    pub line: Seq<char>,
    pub source: Option<Seq<char>>,
}

impl View for ProvenanceRow {
    type V = ProvenanceRowView;

    open spec fn view(&self) -> ProvenanceRowView {
        ProvenanceRowView { line: self.line@, source: optional_text(self.source) }
    }
}

/// How a page is shown.
pub open spec fn provenance_row(result: QueryResultSnapshot) -> ProvenanceRowView {
    ProvenanceRowView {
        line: "doc r"@ + decimal(result.document_revision as nat) + " · facts r"@ + decimal(
            result.provenance.fact_base_revision as nat,
        ) + " "@ + hex_text(result.provenance.fact_base_digest.bytes@.take(6)) + " · address "@
            + hex_text(result.content_address.bytes@.take(6)) + " · offset "@ + decimal(
            result.page_start as nat,
        ) + " · "@ + decimal(result.page.hits@.len()) + " hits"@,
        source: match result.provenance.source_revision {
            Some(source) => Some("source revision "@ + source@),
            None => None,
        },
    }
}

fn show_page(result: &QueryResultSnapshot) -> (r: ProvenanceRow)
    ensures
        r@ == provenance_row(*result),
{
    let mut line = owned("doc r");
    append_decimal(&mut line, result.document_revision);
    line.append(" · facts r");
    append_decimal(&mut line, result.provenance.fact_base_revision);
    line.append(" ");
    line.append(short_digest(&result.provenance.fact_base_digest.bytes).as_str());
    line.append(" · address ");
    line.append(short_digest(&result.content_address.bytes).as_str());
    line.append(" · offset ");
    append_decimal(&mut line, result.page_start);
    line.append(" · ");
    append_decimal(&mut line, result.page.hits.len() as u64);
    line.append(" hits");
    let source = match &result.provenance.source_revision {
        Some(source) => {
            let mut text = owned("source revision ");
            text.append(source.as_str());
            Some(text)
        },
        None => None,
    };
    ProvenanceRow { line, source }
}

impl ReadingQueryView {
    /// What is shown of the document's history, the newest page first.
    pub fn provenance_panel(&self) -> (r: Vec<ProvenanceRow>)
        ensures
            r@.len() == self@.document.results@.len(),
            forall|i: int|
                0 <= i < r@.len() ==> (#[trigger] r@[i])@ == provenance_row(
                    self@.document.results@[self@.document.results@.len() - 1 - i],
                ),
    {
        let results = &self.model().document().results;
        let mut rows: Vec<ProvenanceRow> = Vec::new();
        let mut left: usize = results.len();
        while left > 0
            invariant
                left <= results.len(),
                *results == self@.document.results,
                rows@.len() == results.len() - left,
                forall|i: int|
                    0 <= i < rows@.len() ==> (#[trigger] rows@[i])@ == provenance_row(
                        results@[results@.len() - 1 - i],
                    ),
            decreases left,
        {
            left = left - 1;
            rows.push(show_page(&results[left]));
        }
        rows
    }
}

// ----- residual -----------------------------------------------------------

/// The residual targets, as they are shown.
#[derive(Debug, PartialEq, Eq)]
pub enum ResidualPanel {
    /// Nothing was measured.
    NoField,
    /// What was measured leaves nothing to hear.
    NoHotspot,
    /// The label of every target.
    Hotspots(Vec<String>),
}

/// The label of target `i`.
pub open spec fn hotspot_label(target: AuditionTarget, i: int) -> Seq<char> {
    "AUDITION HOTSPOT "@ + decimal((i + 1) as nat) + " · "@ + decimal(
        target.extent.regions@.len(),
    ) + " REGION"@
}

impl ReadingQueryView {
    /// What is shown of the residual targets.
    pub fn residual_panel(&self) -> (r: ResidualPanel)
        ensures
            match self@.residual {
                None => r is NoField,
                Some(auditions) => if auditions.len() == 0 {
                    r is NoHotspot
                } else {
                    &&& r matches ResidualPanel::Hotspots(labels)
                    &&& labels@.len() == auditions.len()
                    &&& forall|i: int|
                        0 <= i < labels@.len() ==> (#[trigger] labels@[i])@ == hotspot_label(
                            auditions[i],
                            i,
                        )
                },
            },
    {
        let auditions = match self.shown_residual() {
            Some(auditions) => auditions,
            None => {
                return ResidualPanel::NoField;
            },
        };
        if auditions.len() == 0 {
            return ResidualPanel::NoHotspot;
        }
        let mut labels: Vec<String> = Vec::new();
        let mut i: usize = 0;
        while i < auditions.len()
            invariant
                i <= auditions.len(),
                labels@.len() == i,
                forall|k: int|
                    0 <= k < i ==> (#[trigger] labels@[k])@ == hotspot_label(auditions@[k], k),
            decreases auditions.len() - i,
        {
            let mut label = owned("AUDITION HOTSPOT ");
            append_decimal(&mut label, i as u64 + 1);
            label.append(" · ");
            append_decimal(&mut label, auditions[i].extent.regions.len() as u64);
            label.append(" REGION");
            labels.push(label);
            i = i + 1;
        }
        ResidualPanel::Hotspots(labels)
    }
}

// ----- readings -----------------------------------------------------------

/// A reading, as it is shown.
#[derive(Debug, PartialEq, Eq)]
pub struct ReadingRow {
    pub title: String,
    pub source: &'static str,
    pub source_color: u32,
    pub selected: bool,
}

/// What a reading row holds.
pub struct ReadingRowView {
    pub title: Seq<char>,
    pub source: Seq<char>,
    pub source_color: u32,
    pub selected: bool,
}

impl View for ReadingRow {
    type V = ReadingRowView;

    open spec fn view(&self) -> ReadingRowView {
        ReadingRowView {
            title: self.title@,
            source: self.source@,
            source_color: self.source_color,
            selected: self.selected,
        }
    }
}

/// How a reading is shown.
pub open spec fn reading_row(input: ReadingInputDto, selected: bool) -> ReadingRowView {
    ReadingRowView {
        title: hex_text(input.reading.reading.reading_id@) + " · revision "@ + decimal(
            input.reading.reading.revision as nat,
        ),
        source: if input.local_source is Some {
            "local source supplied"@
        } else {
            "source absent · graph-only until matched"@
        },
        source_color: if input.local_source is Some {
            LIME
        } else {
            AMBER
        },
        selected,
    }
}

/// How a difference is summed up.
pub open spec fn diff_line(diff: DiffView) -> Seq<char> {
    "diff "@ + hex_text(diff.left.0@) + " r"@ + decimal(diff.left.1 as nat) + " ↔ "@ + hex_text(
        diff.right.0@,
    ) + " r"@ + decimal(diff.right.1 as nat) + " · source changed "@ + bool_text(diff.source_changed)
        + " · "@ + decimal(diff.sections.len()) + " sections · "@ + decimal(diff.entities.len())
        + " qualified entities"@
}

/// How a merge is summed up.
pub open spec fn merge_line(merge: MergeView) -> Seq<char> {
    decimal(merge.readings.len()) + " readings · "@ + decimal(merge.entities.len())
        + " entities · "@ + decimal(merge.groups.len())
        + " coexisting hypothesis groups · no winner selected"@
}

/// The readings and what is known of them together.
#[derive(Debug, PartialEq, Eq)]
pub struct ReadingsPanel {
    pub rows: Vec<ReadingRow>,
    pub diff: Option<String>,
    pub merge: Option<String>,
}

fn show_reading(input: &ReadingInputDto, selected: bool) -> (r: ReadingRow)
    ensures
        r@ == reading_row(*input, selected),
{
    let mut title = input.reading.reading.reading_id.to_text();
    title.append(" · revision ");
    append_decimal(&mut title, input.reading.reading.revision);
    let supplied = input.local_source.is_some();
    ReadingRow {
        title,
        source: if supplied {
            "local source supplied"
        } else {
            "source absent · graph-only until matched"
        },
        source_color: if supplied {
            LIME
        } else {
            AMBER
        },
        selected,
    }
}

fn sum_up_diff(diff: &ReadingDiff) -> (r: String)
    ensures
        r@ == diff_line(diff@),
{
    let mut line = owned("diff ");
    line.append(diff.left.0.to_text().as_str());
    line.append(" r");
    append_decimal(&mut line, diff.left.1);
    line.append(" ↔ ");
    line.append(diff.right.0.to_text().as_str());
    line.append(" r");
    append_decimal(&mut line, diff.right.1);
    line.append(" · source changed ");
    append_bool(&mut line, diff.source_changed);
    line.append(" · ");
    append_decimal(&mut line, diff.sections.len() as u64);
    line.append(" sections · ");
    append_decimal(&mut line, diff.entities.len() as u64);
    line.append(" qualified entities");
    line
}

fn sum_up_merge(merge: &ReadingMergePlan) -> (r: String)
    ensures
        r@ == merge_line(merge@),
{
    let mut line = decimal_text(merge.readings.len() as u64);
    line.append(" readings · ");
    append_decimal(&mut line, merge.entities.len() as u64);
    line.append(" entities · ");
    append_decimal(&mut line, merge.hypothesis_groups.len() as u64);
    line.append(" coexisting hypothesis groups · no winner selected");
    line
}

impl ReadingQueryView {
    /// What is shown of the readings.
    pub fn readings_panel(&self) -> (r: ReadingsPanel)
        ensures
            r.rows@.len() == self@.inputs.readings@.len(),
            forall|i: int|
                0 <= i < r.rows@.len() ==> (#[trigger] r.rows@[i])@ == reading_row(
                    self@.inputs.readings@[i],
                    self@.selected_reading matches Some(index) && index == i,
                ),
            optional_text(r.diff) == match self@.diff {
                Some(diff) => Some(diff_line(diff)),
                None => None,
            },
            optional_text(r.merge) == match self@.merge {
                Some(merge) => Some(merge_line(merge)),
                None => None,
            },
    {
        let readings = &self.known().readings;
        let chosen = self.chosen_reading();
        let mut rows: Vec<ReadingRow> = Vec::new();
        let mut i: usize = 0;
        while i < readings.len()
            invariant
                i <= readings@.len(),
                *readings == self@.inputs.readings,
                chosen == self@.selected_reading,
                rows@.len() == i,
                forall|k: int|
                    0 <= k < i ==> (#[trigger] rows@[k])@ == reading_row(
                        readings@[k],
                        self@.selected_reading matches Some(index) && index == k,
                    ),
            decreases readings@.len() - i,
        {
            let here = match chosen {
                Some(index) => index == i,
                None => false,
            };
            rows.push(show_reading(&readings[i], here));
            i = i + 1;
        }
        let diff = match self.shown_diff() {
            Some(diff) => Some(sum_up_diff(diff)),
            None => None,
        };
        let merge = match self.shown_merge() {
            Some(merge) => Some(sum_up_merge(merge)),
            None => None,
        };
        ReadingsPanel { rows, diff, merge }
    }
}

} // verus!
