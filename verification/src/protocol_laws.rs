//! What the headless protocol answers, and what texts and graphs say: lines and requests
//! that are accepted, what answers carry, and how numbers and names are written and found.

use vstd::prelude::*;

use crate::command::CommandBatch;
use crate::exchange_laws::{is_exact_copy, refusals_say_what_differs};
use crate::foreign_import::{ForeignHypothesisAllocationDto, HypothesisSetAllocationDto};
use crate::navigation::valid_reference;
use crate::protocol::{
    allocated_before, bad_group, batch_outcome, group_before, input_plan, input_plans,
    is_summary, kept, kept_of, line_fault, optional_descriptor, plan_outcome, render_outcome,
    repeated_allocation, tier_of, verify_outcome, HeadlessDispatch, HeadlessProtocolError,
    HeadlessRequest, HeadlessResponseBody, HeadlessStep, ImportPlanSummaryDto, KeptView,
    LocalSourceDto, ReadingInputDto, VerificationTierDto,
};
use crate::query_document::AuditionTarget;
use crate::query_terms::geometry_fault;
use crate::reading::{
    entity_keys, section_views, LocalSourceDescriptor, QualifiedEntityId, ReadingFile,
    VerificationTier,
};
use crate::reading_import::{
    import_plan, ImportFault, PlanView, ReadingImportOptions, UnknownSectionPolicy,
};
use crate::reading_laws::shows_something;
use crate::reading_merge::PreservedView;
use crate::selection::GraphObjectId;
use crate::source_graph::{
    comparison_at, hypothesis_at, observation_at, parameter_at, parameter_object, relation_at,
    span_source, transform_owner, ComparisonDefinition, ComparisonObservation, GraphHypothesis,
    GraphParameter, GraphRelation, GraphSpan, GraphTransform, ParameterOwner, SourceGraph,
};
use crate::text::{
    decimal, digit_char, hex_char, hex_text, hex_value, is_blank, is_token, is_token_char,
    is_white_space, padded_decimal, signed_decimal,
};

verus! {

proof fn lemma_not_blank(text: Seq<char>)
    ensures
        shows_something(text) <==> !is_blank(text),
{
    if !is_blank(text) {
        let i = choose|i: int| 0 <= i < text.len() && !is_white_space(#[trigger] text[i]);
        assert(!is_white_space(text[i]));
    }
}

// ----- requests -----------------------------------------------------------

/// A line is a request exactly if it is one line that reads as a request of this protocol
/// with an identity to show.
pub proof fn requests_take_one_line(
    line: Seq<char>,
    parsed: Result<HeadlessRequest, String>,
)
    ensures
        line_fault(line, parsed) is None <==> (forall|i: int|
            0 <= i < line.len() ==> #[trigger] line[i] != '\n' && line[i] != '\r') && (
        parsed matches Ok(request) && request.protocol@ == "audec-reading-query-jsonl-v1"@
            && shows_something(request.request_id@)),
{
    if let Ok(request) = parsed {
        lemma_not_blank(request.request_id@);
    }
    if line.contains('\n') {
        let i = choose|i: int| 0 <= i < line.len() && line[i] == '\n';
        assert(line[i] == '\n');
    }
    if line.contains('\r') {
        let i = choose|i: int| 0 <= i < line.len() && line[i] == '\r';
        assert(line[i] == '\r');
    }
}

/// Allocations are taken only if no entity of a reading is named twice.
pub proof fn allocations_name_entities_once(
    values: Seq<ForeignHypothesisAllocationDto>,
    i: int,
)
    requires
        0 <= i <= values.len(),
    ensures
        repeated_allocation(values, i) is None <==> forall|j: int, k: int|
            0 <= j < k && i <= k < values.len() ==> (#[trigger] values[j]).foreign@ != (
            #[trigger] values[k]).foreign@,
    decreases values.len() - i,
{
    if i < values.len() {
        allocations_name_entities_once(values, i + 1);
    }
}

/// Groups are taken only if each has a name to show and none comes twice.
pub proof fn groups_have_names_of_their_own(values: Seq<HypothesisSetAllocationDto>, i: int)
    requires
        0 <= i <= values.len(),
    ensures
        bad_group(values, i) is None <==> (forall|k: int|
            i <= k < values.len() ==> shows_something((#[trigger] values[k]).group@)) && (forall|
            j: int,
            k: int,
        |
            0 <= j < k && i <= k < values.len() ==> (#[trigger] values[j]).group@ != (
            #[trigger] values[k]).group@),
    decreases values.len() - i,
{
    if i < values.len() {
        groups_have_names_of_their_own(values, i + 1);
        lemma_not_blank(values[i].group@);
    }
}

/// Readings are planned one by one, each against its own source, and have to have an
/// entity section.
pub proof fn inputs_are_planned_with_their_source(
    readings: Seq<ReadingInputDto>,
    existing: Seq<QualifiedEntityId>,
    unknown_sections: UnknownSectionPolicy,
    i: int,
)
    requires
        0 <= i <= readings.len(),
        input_plans(readings, existing, unknown_sections, i) is Ok,
    ensures
        input_plans(readings, existing, unknown_sections, i)->Ok_0.len() == i,
        forall|k: int|
            0 <= k < i ==> import_plan(
                readings[k].reading.reading,
                readings[k].reading.entities,
                match readings[k].local_source {
                    Some(source) => Some(
                        LocalSourceDescriptor {
                            digest: source.digest,
                            sample_rate: source.sample_rate,
                            channels: source.channels,
                            frame_count: source.frame_count,
                        },
                    ),
                    None => None,
                },
                entity_keys(existing),
                (ReadingImportOptions { unknown_sections, require_entity_section: true }),
            ) == Ok::<PlanView, ImportFault>(
                #[trigger] input_plans(readings, existing, unknown_sections, i)->Ok_0[k],
            ),
    decreases i,
{
    if i > 0 {
        inputs_are_planned_with_their_source(readings, existing, unknown_sections, i - 1);
        let done = input_plans(readings, existing, unknown_sections, i - 1)->Ok_0;
        let out = input_plans(readings, existing, unknown_sections, i)->Ok_0;
        assert(out == done.push(out[i - 1]));
        assert forall|k: int| 0 <= k < i - 1 implies #[trigger] out[k] == done[k] by {}
    }
}

// ----- answers ------------------------------------------------------------

/// A reading is verified by its source alone: without one it is a graph only, with an
/// exact copy the source is matched, and with any other it is refused.
pub proof fn readings_are_verified_by_their_source(
    request_id: Seq<char>,
    reading: ReadingFile,
    local_source: Option<LocalSourceDto>,
    outcome: Result<HeadlessStep, HeadlessProtocolError>,
)
    requires
        verify_outcome(request_id, reading, local_source, outcome),
    ensures
        outcome is Ok <==> reading.fault() is None && (local_source matches Some(source)
            ==> is_exact_copy(
            reading,
            (LocalSourceDescriptor {
                digest: source.digest,
                sample_rate: source.sample_rate,
                channels: source.channels,
                frame_count: source.frame_count,
            }),
        )),
        outcome matches Ok(step) ==> step matches HeadlessStep::Answered(
            HeadlessDispatch::Observation(response),
        ) && response.request_id@ == request_id && (
        response.body matches HeadlessResponseBody::ReadingVerified { tier } && tier == if local_source
            is Some {
            VerificationTierDto::SourceMatched
        } else {
            VerificationTierDto::GraphOnly
        }),
{
    if let Some(source) = local_source {
        refusals_say_what_differs(
            reading,
            LocalSourceDescriptor {
                digest: source.digest,
                sample_rate: source.sample_rate,
                channels: source.channels,
                frame_count: source.frame_count,
            },
        );
    }
}

/// The tiers of an answer are those of the library.
pub proof fn tiers_keep_their_meaning(tier: VerificationTier)
    ensures
        tier_of(tier) is GraphOnly <==> tier == VerificationTier::GraphOnly,
        tier_of(tier) is SourceMatched <==> tier == VerificationTier::SourceMatched,
        tier_of(tier) is Replicated <==> tier == VerificationTier::Replicated,
{
}

/// What is said of a plan names its entities, in order, and the sections that it keeps.
pub proof fn summaries_name_what_is_planned(summary: ImportPlanSummaryDto, plan: PlanView)
    requires
        is_summary(summary, plan),
    ensures
        summary.reading_id == plan.reading_id,
        summary.reading_revision == plan.reading_revision,
        summary.entities@.len() == plan.entities.len(),
        forall|k: int|
            0 <= k < plan.entities.len() ==> (#[trigger] summary.entities@[k])@
                == plan.entities[k].id,
        section_views(summary.preserved_sections@) == plan.preserved_sections,
        summary.verification is GraphOnly <==> plan.verification == VerificationTier::GraphOnly,
{
    let keys = entity_keys(summary.entities@);
    assert(keys.len() == summary.entities@.len());
    assert forall|k: int| 0 <= k < plan.entities.len() implies (#[trigger] summary.entities@[k])@
        == plan.entities[k].id by {
        assert(keys[k] == summary.entities@[k]@);
    }
}

/// A render is answered with the very target that was asked for, where that can be heard.
pub proof fn renders_are_of_what_was_asked_for(
    request_id: Seq<char>,
    target: AuditionTarget,
    outcome: Result<HeadlessStep, HeadlessProtocolError>,
)
    requires
        render_outcome(request_id, target, outcome),
    ensures
        outcome is Ok <==> valid_reference(target.entity@) && geometry_fault(target.extent@)
            is None,
        outcome matches Ok(step) ==> step matches HeadlessStep::Answered(
            HeadlessDispatch::Render { response, target: rendered },
        ) && rendered == target && response.request_id@ == request_id,
{
}

/// A batch of commands is planned as it is, on the revision that was asked for, where it
/// has a label and commands.
pub proof fn batches_are_planned_as_they_are(
    request_id: Seq<char>,
    base_revision: u64,
    decoded: Result<CommandBatch, String>,
    outcome: Result<HeadlessStep, HeadlessProtocolError>,
)
    requires
        batch_outcome(request_id, base_revision, decoded, outcome),
    ensures
        outcome is Ok <==> (decoded matches Ok(batch) && shows_something(batch.label@)
            && batch.commands@.len() > 0),
        outcome matches Ok(step) ==> step matches HeadlessStep::Encode(command) && {
            let batch = decoded->Ok_0;
            &&& command.request_id@ == request_id
            &&& command.planned.envelope.label == batch.label
            &&& command.planned.envelope.base_revision == base_revision
            &&& command.planned.envelope.commands == batch.commands
            &&& command.planned.envelope.id_claims == batch.id_claims
            &&& command.planned.envelope.coalesce == batch.coalesce
            &&& command.planned.mappings@.len() == 0
            &&& command.preserved_sections@.len() == 0
        },
{
    if let Ok(batch) = decoded {
        lemma_not_blank(batch.label@);
    }
}

/// Every section that a reading kept is told with its reading and revision.
pub proof fn kept_sections_are_told(list: Seq<PreservedView>, i: int, p: int, s: int)
    requires
        0 <= p < i <= list.len(),
        0 <= s < list[p].sections.len(),
    ensures
        kept(list, i).contains(
            KeptView {
                reading_id: list[p].reading_id,
                reading_revision: list[p].revision,
                section: list[p].sections[s],
            },
        ),
    decreases i,
{
    let item = KeptView {
        reading_id: list[p].reading_id,
        reading_revision: list[p].revision,
        section: list[p].sections[s],
    };
    let before = kept(list, i - 1);
    let last = kept_of(list[i - 1]);
    let out = kept(list, i);
    if p < i - 1 {
        kept_sections_are_told(list, i - 1, p, s);
        let k = choose|k: int| 0 <= k < before.len() && before[k] == item;
        assert(out[k] == item);
    } else {
        assert(last[s] == item);
        assert(out[before.len() + s] == item);
    }
}

// ----- texts --------------------------------------------------------------

/// Blanks are the characters of white space, and no letter, digit or sign is one.
pub proof fn signs_are_no_white_space(c: char)
    ensures
        0x21 <= c as u32 <= 0x7e ==> !is_white_space(c),
        c == ' ' || c == '\t' || c == '\n' || c == '\r' ==> is_white_space(c),
        is_white_space(c) <==> set![
            9u32,
            10u32,
            11u32,
            12u32,
            13u32,
            32u32,
            133u32,
            160u32,
            5760u32,
            8192u32,
            8193u32,
            8194u32,
            8195u32,
            8196u32,
            8197u32,
            8198u32,
            8199u32,
            8200u32,
            8201u32,
            8202u32,
            8232u32,
            8233u32,
            8239u32,
            8287u32,
            12288u32,
        ].contains(c as u32),
{
}

/// Tokens are made of letters and digits of ASCII and of the signs that join them: none
/// holds white space or a sign that parts fields or paths.
pub proof fn tokens_hold_no_separators(text: Seq<char>, i: int)
    requires
        is_token(text),
        0 <= i < text.len(),
    ensures
        !is_white_space(text[i]),
        text[i] != ':' && text[i] != '/' && text[i] != '\\' && text[i] != '"',
        (text[i] as u32) < 0x7b && text[i] as u32 >= 0x2d,
{
}

/// Letters and digits of ASCII and the three joining signs are the characters of tokens.
pub proof fn letters_and_digits_make_tokens(c: char)
    ensures
        is_token_char(c) <==> (48 <= c as u32 <= 57) || (65 <= c as u32 <= 90) || (97 <= c as u32
            <= 122) || c as u32 == 45 || c as u32 == 46 || c as u32 == 95,
{
}

/// Numbers are written with digits only, and without zeros in front.
pub proof fn numbers_are_written_with_digits(n: nat)
    ensures
        decimal(n).len() > 0,
        forall|i: int|
            0 <= i < decimal(n).len() ==> 48 <= (#[trigger] decimal(n)[i]) as u32 <= 57,
        n > 0 ==> decimal(n)[0] != '0',
        decimal(n).last() as u32 == 48 + n % 10,
    decreases n,
{
    if n >= 10 {
        numbers_are_written_with_digits(n / 10);
        assert forall|i: int| 0 <= i < decimal(n).len() implies 48 <= (
        #[trigger] decimal(n)[i]) as u32 <= 57 by {
            if i < decimal(n).len() - 1 {
                assert(decimal(n)[i] == decimal(n / 10)[i]);
            }
        }
        assert(decimal(n)[0] == decimal(n / 10)[0]);
    }
}

/// Signed numbers start with their sign, and go on with how far they are from zero.
pub proof fn signed_numbers_start_with_their_sign(n: int)
    ensures
        n < 0 <==> signed_decimal(n)[0] == '-',
        n >= 0 <==> signed_decimal(n)[0] == '+',
        n < 0 ==> signed_decimal(n).skip(1) == decimal((-n) as nat),
        n >= 0 ==> signed_decimal(n).skip(1) == decimal(n as nat),
{
    if n < 0 {
        assert(signed_decimal(n).skip(1) =~= decimal((-n) as nat));
    } else {
        assert(signed_decimal(n).skip(1) =~= decimal(n as nat));
    }
}

/// Padding puts zeros in front of a number until it has twenty digits.
pub proof fn padding_puts_zeros_in_front(n: nat)
    requires
        decimal(n).len() <= 20,
    ensures
        padded_decimal(n).len() == 20,
        padded_decimal(n).skip(20 - decimal(n).len()) == decimal(n),
        forall|i: int|
            0 <= i < 20 - decimal(n).len() ==> #[trigger] padded_decimal(n)[i] == '0',
{
    assert(padded_decimal(n).skip(20 - decimal(n).len()) =~= decimal(n));
}

/// A digit of base sixteen stands for its value, in small letters as in large ones.
pub proof fn digits_of_bytes_have_their_value(d: nat)
    requires
        d < 16,
    ensures
        hex_value(hex_char(d)) == Some(d as u8),
        d < 10 ==> hex_char(d) as u32 == 48 + d,
        d >= 10 ==> hex_char(d) as u32 == 87 + d,
        d >= 10 ==> hex_value((55 + d) as char) == Some(d as u8),
{
}

/// A byte is written as two digits, the higher one first.
pub proof fn bytes_are_written_in_two_digits(bytes: Seq<u8>, i: int)
    requires
        0 <= i < bytes.len(),
    ensures
        hex_text(bytes).len() == 2 * bytes.len(),
        hex_value(hex_text(bytes)[2 * i]) matches Some(high) && hex_value(
            hex_text(bytes)[2 * i + 1],
        ) matches Some(low) && 16 * high + low == bytes[i],
{
    let high = (bytes[i] / 16) as nat;
    let low = (bytes[i] % 16) as nat;
    digits_of_bytes_have_their_value(high);
    digits_of_bytes_have_their_value(low);
    assert((2 * i) / 2 == i && (2 * i) % 2 == 0);
    assert((2 * i + 1) / 2 == i && (2 * i + 1) % 2 == 1);
}

// ----- graphs -------------------------------------------------------------

/// The owner of a transform is that of the first with its number.
pub proof fn transforms_are_found_by_number(list: Seq<GraphTransform>, id: u64, i: int)
    requires
        0 <= i,
    ensures
        match transform_owner(list, id, i) {
            Some(found) => exists|k: int|
                i <= k < list.len() && (#[trigger] list[k]).id == id && list[k].owner == found
                    && forall|m: int| i <= m < k ==> (#[trigger] list[m]).id != id,
            None => forall|k: int| i <= k < list.len() ==> (#[trigger] list[k]).id != id,
        },
    decreases list.len() - i,
{
    if i < list.len() {
        if list[i].id == id {
            assert(list[i].owner == list[i].owner);
        } else {
            transforms_are_found_by_number(list, id, i + 1);
            if let Some(found) = transform_owner(list, id, i) {
                let k = choose|k: int|
                    i + 1 <= k < list.len() && (#[trigger] list[k]).id == id && list[k].owner
                        == found && forall|m: int|
                        i + 1 <= m < k ==> (#[trigger] list[m]).id != id;
                assert(list[k].id == id);
            }
        }
    }
}

/// The owner of a parameter is that of the first with its number.
pub proof fn parameters_are_found_by_number(list: Seq<GraphParameter>, id: u64, i: int)
    requires
        0 <= i,
    ensures
        match parameter_at(list, id, i) {
            Some(found) => exists|k: int|
                i <= k < list.len() && (#[trigger] list[k]).id == id && list[k].owner == found
                    && forall|m: int| i <= m < k ==> (#[trigger] list[m]).id != id,
            None => forall|k: int| i <= k < list.len() ==> (#[trigger] list[k]).id != id,
        },
    decreases list.len() - i,
{
    if i < list.len() {
        if list[i].id == id {
            assert(list[i].owner == list[i].owner);
        } else {
            parameters_are_found_by_number(list, id, i + 1);
            if let Some(found) = parameter_at(list, id, i) {
                let k = choose|k: int|
                    i + 1 <= k < list.len() && (#[trigger] list[k]).id == id && list[k].owner
                        == found && forall|m: int|
                        i + 1 <= m < k ==> (#[trigger] list[m]).id != id;
                assert(list[k].id == id);
            }
        }
    }
}

/// The source of a span is that of the first with its number.
pub proof fn spans_are_found_by_number(list: Seq<GraphSpan>, id: u64, i: int)
    requires
        0 <= i,
    ensures
        match span_source(list, id, i) {
            Some(found) => exists|k: int|
                i <= k < list.len() && (#[trigger] list[k]).id == id && list[k].source == found
                    && forall|m: int| i <= m < k ==> (#[trigger] list[m]).id != id,
            None => forall|k: int| i <= k < list.len() ==> (#[trigger] list[k]).id != id,
        },
    decreases list.len() - i,
{
    if i < list.len() {
        if list[i].id == id {
            assert(list[i].source == list[i].source);
        } else {
            spans_are_found_by_number(list, id, i + 1);
            if let Some(found) = span_source(list, id, i) {
                let k = choose|k: int|
                    i + 1 <= k < list.len() && (#[trigger] list[k]).id == id && list[k].source
                        == found && forall|m: int|
                        i + 1 <= m < k ==> (#[trigger] list[m]).id != id;
                assert(list[k].id == id);
            }
        }
    }
}

/// A relation is the first with its number.
pub proof fn relations_are_found_by_number(list: Seq<GraphRelation>, id: u64, i: int)
    requires
        0 <= i,
    ensures
        match relation_at(list, id, i) {
            Some(k) => i <= k < list.len() && list[k].id == id && forall|m: int|
                i <= m < k ==> (#[trigger] list[m]).id != id,
            None => forall|k: int| i <= k < list.len() ==> (#[trigger] list[k]).id != id,
        },
    decreases list.len() - i,
{
    if i < list.len() && list[i].id != id {
        relations_are_found_by_number(list, id, i + 1);
    }
}

/// A hypothesis is the first with its identity.
pub proof fn hypotheses_are_found_by_identity(list: Seq<GraphHypothesis>, id: crate::command::HypothesisId, i: int)
    requires
        0 <= i,
    ensures
        match hypothesis_at(list, id, i) {
            Some(k) => i <= k < list.len() && list[k].id == id && forall|m: int|
                i <= m < k ==> (#[trigger] list[m]).id != id,
            None => forall|k: int| i <= k < list.len() ==> (#[trigger] list[k]).id != id,
        },
    decreases list.len() - i,
{
    if i < list.len() && list[i].id != id {
        hypotheses_are_found_by_identity(list, id, i + 1);
    }
}

/// A comparison is the first with its identity.
pub proof fn comparisons_are_found_by_identity(list: Seq<ComparisonDefinition>, id: crate::objects::ComparisonId, i: int)
    requires
        0 <= i,
    ensures
        match comparison_at(list, id, i) {
            Some(k) => i <= k < list.len() && list[k].id == id && forall|m: int|
                i <= m < k ==> (#[trigger] list[m]).id != id,
            None => forall|k: int| i <= k < list.len() ==> (#[trigger] list[k]).id != id,
        },
    decreases list.len() - i,
{
    if i < list.len() && list[i].id != id {
        comparisons_are_found_by_identity(list, id, i + 1);
    }
}

/// An observation is the first of its comparison.
pub proof fn observations_are_found_by_comparison(list: Seq<ComparisonObservation>, id: crate::objects::ComparisonId, i: int)
    requires
        0 <= i,
    ensures
        match observation_at(list, id, i) {
            Some(k) => i <= k < list.len() && list[k].comparison == id && forall|m: int|
                i <= m < k ==> (#[trigger] list[m]).comparison != id,
            None => forall|k: int| i <= k < list.len() ==> (#[trigger] list[k]).comparison != id,
        },
    decreases list.len() - i,
{
    if i < list.len() && list[i].comparison != id {
        observations_are_found_by_comparison(list, id, i + 1);
    }
}

/// A parameter belongs to the object that owns it, or to the one that owns its transform.
pub proof fn parameters_belong_to_objects(graph: SourceGraph, id: u64)
    ensures
        match parameter_at(graph.parameters@, id, 0) {
            None => parameter_object(graph, id) is None,
            Some(ParameterOwner::Object(object)) => parameter_object(graph, id) == Some(object),
            Some(ParameterOwner::Transform(transform)) => match parameter_object(graph, id) {
                Some(object) => exists|k: int|
                    0 <= k < graph.transforms@.len() && (#[trigger] graph.transforms@[k]).id
                        == transform && graph.transforms@[k].owner == object,
                None => forall|k: int|
                    0 <= k < graph.transforms@.len() ==> (#[trigger] graph.transforms@[k]).id
                        != transform,
            },
        },
{
    if let Some(ParameterOwner::Transform(transform)) = parameter_at(graph.parameters@, id, 0) {
        transforms_are_found_by_number(graph.transforms@, transform, 0);
    }
}

} // verus!
