//! What messages say: each value stands behind the word for it.

use vstd::prelude::*;

use crate::effects::{EffectFault, ReadingEffectPin};
use crate::lifecycle::ProjectLifecycleError;
use crate::query_terms::debug_text;
use crate::reading::{EntityKey, PortableDigest, ReadingId, RefusalView};
use crate::reading_import::CodecView;
use crate::reading_merge::MergeFault;
use crate::reading_source::entity_text;
use crate::reading_workflow::WorkflowFault;
use crate::session::ProjectSessionError;
use crate::source_graph::FrameSpan;
use crate::streamed_waveform::StreamingWaveformError;
use crate::text::{decimal, signed_decimal};
use crate::wording::{
    codec_words, digest_list, digest_words, effect_message, lifecycle_message, merge_words,
    reading_id_words, session_message, stream_message, verification_words, workflow_message,
    HostWords,
};

verus! {

/// A text around a word and a value behind it.
pub open spec fn around(
    before: Seq<char>,
    word: Seq<char>,
    value: Seq<char>,
    after: Seq<char>,
) -> Seq<char> {
    before + word + value + after
}

/// Whether a text says a word with a value right behind it.
pub open spec fn says(text: Seq<char>, word: Seq<char>, value: Seq<char>) -> bool {
    exists|before: Seq<char>, after: Seq<char>|
        text == #[trigger] around(before, word, value, after)
}

proof fn lemma_says(
    text: Seq<char>,
    head: Seq<char>,
    words: Seq<char>,
    word: Seq<char>,
    value: Seq<char>,
    after: Seq<char>,
)
    requires
        text =~= head + words + value + after,
        words.len() >= word.len(),
        words.skip(words.len() - word.len()) =~= word,
    ensures
        says(text, word, value),
{
    let before = head + words.take(words.len() - word.len());
    assert(words =~= words.take(words.len() - word.len()) + word);
    assert(text =~= around(before, word, value, after));
}

/// A conflict of revisions says which was expected and which there is.
pub proof fn revision_conflicts_say_both_revisions(
    expected: u64,
    actual: u64,
    host: HostWords,
)
    ensures
        ({
            let text = session_message(ProjectSessionError::RevisionConflict { expected, actual }, host);
            &&& says(text, "expected "@, decimal(expected as nat))
            &&& says(text, "actual "@, decimal(actual as nat))
        }),
{
    reveal_strlit("project action revision conflict: expected ");
    reveal_strlit("expected ");
    reveal_strlit(", actual ");
    reveal_strlit("actual ");
    let text = session_message(ProjectSessionError::RevisionConflict { expected, actual }, host);
    let none = Seq::<char>::empty();
    lemma_says(
        text,
        none,
        "project action revision conflict: expected "@,
        "expected "@,
        decimal(expected as nat),
        ", actual "@ + decimal(actual as nat),
    );
    lemma_says(
        text,
        "project action revision conflict: expected "@ + decimal(expected as nat),
        ", actual "@,
        "actual "@,
        decimal(actual as nat),
        none,
    );
}

/// A conflict of an export says the revision of the audio and that of the project.
pub proof fn export_conflicts_say_both_revisions(
    project_revision: u64,
    audible_revision: u64,
    host: HostWords,
)
    ensures
        ({
            let text = lifecycle_message(
                ProjectLifecycleError::ExportRevisionConflict { project_revision, audible_revision },
                host,
            );
            &&& says(text, "audio revision "@, decimal(audible_revision as nat))
            &&& says(text, "project revision "@, decimal(project_revision as nat))
        }),
{
    reveal_strlit("export audio revision ");
    reveal_strlit("audio revision ");
    reveal_strlit(" does not match project revision ");
    reveal_strlit("project revision ");
    let text = lifecycle_message(
        ProjectLifecycleError::ExportRevisionConflict { project_revision, audible_revision },
        host,
    );
    let none = Seq::<char>::empty();
    lemma_says(
        text,
        none,
        "export audio revision "@,
        "audio revision "@,
        decimal(audible_revision as nat),
        " does not match project revision "@ + decimal(project_revision as nat),
    );
    lemma_says(
        text,
        "export audio revision "@ + decimal(audible_revision as nat),
        " does not match project revision "@,
        "project revision "@,
        decimal(project_revision as nat),
        none,
    );
}

/// A wrong number of samples is said beside the right one.
pub proof fn sample_counts_are_said(expected: usize, actual: usize, host: HostWords)
    ensures
        ({
            let text = stream_message(StreamingWaveformError::PcmSampleCount { expected, actual }, host);
            &&& says(text, "returned "@, decimal(actual as nat))
            &&& says(text, "expected "@, decimal(expected as nat))
        }),
{
    reveal_strlit("streamed waveform edge returned ");
    reveal_strlit("returned ");
    reveal_strlit(" samples; expected ");
    reveal_strlit("expected ");
    let text = stream_message(StreamingWaveformError::PcmSampleCount { expected, actual }, host);
    let none = Seq::<char>::empty();
    lemma_says(
        text,
        none,
        "streamed waveform edge returned "@,
        "returned "@,
        decimal(actual as nat),
        " samples; expected "@ + decimal(expected as nat),
    );
    lemma_says(
        text,
        "streamed waveform edge returned "@ + decimal(actual as nat),
        " samples; expected "@,
        "expected "@,
        decimal(expected as nat),
        none,
    );
}

/// What was expected of a source is said beside what it has.
pub proof fn sample_rates_are_said(expected: u32, actual: u32)
    ensures
        ({
            let text = verification_words(RefusalView::SampleRate { expected, actual });
            &&& says(text, "expected: "@, decimal(expected as nat))
            &&& says(text, "actual: "@, decimal(actual as nat))
        }),
{
    reveal_strlit("SampleRate { expected: ");
    reveal_strlit("expected: ");
    reveal_strlit(", actual: ");
    reveal_strlit("actual: ");
    let text = verification_words(RefusalView::SampleRate { expected, actual });
    let none = Seq::<char>::empty();
    lemma_says(
        text,
        none,
        "SampleRate { expected: "@,
        "expected: "@,
        decimal(expected as nat),
        ", actual: "@ + decimal(actual as nat) + " }"@,
    );
    lemma_says(
        text,
        "SampleRate { expected: "@ + decimal(expected as nat),
        ", actual: "@,
        "actual: "@,
        decimal(actual as nat),
        " }"@,
    );
}

/// What was expected of a source is said beside what it has.
pub proof fn channels_are_said(expected: u16, actual: u16)
    ensures
        ({
            let text = verification_words(RefusalView::Channels { expected, actual });
            &&& says(text, "expected: "@, decimal(expected as nat))
            &&& says(text, "actual: "@, decimal(actual as nat))
        }),
{
    reveal_strlit("Channels { expected: ");
    reveal_strlit("expected: ");
    reveal_strlit(", actual: ");
    reveal_strlit("actual: ");
    let text = verification_words(RefusalView::Channels { expected, actual });
    let none = Seq::<char>::empty();
    lemma_says(
        text,
        none,
        "Channels { expected: "@,
        "expected: "@,
        decimal(expected as nat),
        ", actual: "@ + decimal(actual as nat) + " }"@,
    );
    lemma_says(
        text,
        "Channels { expected: "@ + decimal(expected as nat),
        ", actual: "@,
        "actual: "@,
        decimal(actual as nat),
        " }"@,
    );
}

/// How many frames were expected of a source is said beside how many it has, and by how
/// many they differ.
#[verifier::spinoff_prover]
#[verifier::rlimit(60)]
pub proof fn frame_counts_are_said(expected: u64, actual: u64, delta: i128)
    ensures
        ({
            let text = verification_words(RefusalView::FrameCount { expected, actual, delta });
            &&& says(text, "expected: "@, decimal(expected as nat))
            &&& says(text, "actual: "@, decimal(actual as nat))
            &&& says(text, "delta: "@, signed_decimal(delta as int))
        }),
{
    reveal_strlit("FrameCount { expected: ");
    reveal_strlit("expected: ");
    reveal_strlit(", actual: ");
    reveal_strlit("actual: ");
    reveal_strlit(", delta: ");
    reveal_strlit("delta: ");
    let text = verification_words(RefusalView::FrameCount { expected, actual, delta });
    let none = Seq::<char>::empty();
    lemma_says(
        text,
        none,
        "FrameCount { expected: "@,
        "expected: "@,
        decimal(expected as nat),
        ", actual: "@ + decimal(actual as nat) + ", delta: "@
            + signed_decimal(delta as int) + " }"@,
    );
    lemma_says(
        text,
        "FrameCount { expected: "@ + decimal(expected as nat),
        ", actual: "@,
        "actual: "@,
        decimal(actual as nat),
        ", delta: "@ + signed_decimal(delta as int) + " }"@,
    );
    lemma_says(
        text,
        "FrameCount { expected: "@ + decimal(expected as nat) + ", actual: "@
            + decimal(actual as nat),
        ", delta: "@,
        "delta: "@,
        signed_decimal(delta as int),
        " }"@,
    );
}

/// The digests that were expected are said beside the one there is.
pub proof fn fingerprints_are_said(expected: Seq<PortableDigest>, actual: PortableDigest)
    ensures
        ({
            let text = verification_words(RefusalView::FingerprintMismatch { expected, actual });
            &&& says(text, "expected: ["@, digest_list(expected))
            &&& says(text, "actual: "@, digest_words(actual))
        }),
{
    reveal_strlit("FingerprintMismatch { expected: [");
    reveal_strlit("expected: [");
    reveal_strlit("], actual: ");
    reveal_strlit("actual: ");
    let text = verification_words(RefusalView::FingerprintMismatch { expected, actual });
    let none = Seq::<char>::empty();
    lemma_says(
        text,
        none,
        "FingerprintMismatch { expected: ["@,
        "expected: ["@,
        digest_list(expected),
        "], actual: "@ + digest_words(actual) + " }"@,
    );
    lemma_says(
        text,
        "FingerprintMismatch { expected: ["@ + digest_list(expected),
        "], actual: "@,
        "actual: "@,
        digest_words(actual),
        " }"@,
    );
}

/// A section that is not supported is said with its name and schema.
pub proof fn sections_are_said_with_their_schema(name: Seq<char>, major: u32)
    ensures
        ({
            let text = codec_words(CodecView::UnsupportedSection { name, major });
            &&& says(text, "name: "@, debug_text(name))
            &&& says(text, "major: "@, decimal(major as nat))
        }),
{
    reveal_strlit("UnsupportedSection { name: ");
    reveal_strlit("name: ");
    reveal_strlit(", major: ");
    reveal_strlit("major: ");
    let text = codec_words(CodecView::UnsupportedSection { name, major });
    let none = Seq::<char>::empty();
    lemma_says(
        text,
        none,
        "UnsupportedSection { name: "@,
        "name: "@,
        debug_text(name),
        ", major: "@ + decimal(major as nat) + " }"@,
    );
    lemma_says(
        text,
        "UnsupportedSection { name: "@ + debug_text(name),
        ", major: "@,
        "major: "@,
        decimal(major as nat),
        " }"@,
    );
}

/// A version of a reading that comes twice is said with its reading and revision.
pub proof fn repeated_versions_are_said(reading: ReadingId, revision: u64)
    ensures
        ({
            let text = merge_words(MergeFault::DuplicateReadingVersion { reading, revision });
            &&& says(text, "reading: "@, reading_id_words(reading))
            &&& says(text, "revision: "@, decimal(revision as nat))
        }),
{
    reveal_strlit("DuplicateReadingVersion { reading: ");
    reveal_strlit("reading: ");
    reveal_strlit(", revision: ");
    reveal_strlit("revision: ");
    let text = merge_words(MergeFault::DuplicateReadingVersion { reading, revision });
    let none = Seq::<char>::empty();
    lemma_says(
        text,
        none,
        "DuplicateReadingVersion { reading: "@,
        "reading: "@,
        reading_id_words(reading),
        ", revision: "@ + decimal(revision as nat) + " }"@,
    );
    lemma_says(
        text,
        "DuplicateReadingVersion { reading: "@ + reading_id_words(reading),
        ", revision: "@,
        "revision: "@,
        decimal(revision as nat),
        " }"@,
    );
}

/// An effect of another state says the document and revision it was made in, and those that
/// are current.
#[verifier::spinoff_prover]
#[verifier::rlimit(60)]
pub proof fn stale_effects_say_both_states(
    expected: ReadingEffectPin,
    actual: ReadingEffectPin,
    host: HostWords,
)
    ensures
        ({
            let text = effect_message(EffectFault::StalePublication { expected, actual }, host);
            &&& says(text, "captured at document "@, decimal(expected.document_generation as nat))
            &&& says(text, "/revision "@, decimal(expected.revisions.aggregate as nat))
            &&& says(text, "current is document "@, decimal(actual.document_generation as nat))
            &&& says(text, "/revision "@, decimal(actual.revisions.aggregate as nat))
        }),
{
    reveal_strlit("reading effect was captured at document ");
    reveal_strlit("captured at document ");
    reveal_strlit("/revision ");
    reveal_strlit(", current is document ");
    reveal_strlit("current is document ");
    let text = effect_message(EffectFault::StalePublication { expected, actual }, host);
    let none = Seq::<char>::empty();
    lemma_says(
        text,
        none,
        "reading effect was captured at document "@,
        "captured at document "@,
        decimal(expected.document_generation as nat),
        "/revision "@ + decimal(expected.revisions.aggregate as nat)
            + ", current is document "@ + decimal(actual.document_generation as nat)
            + "/revision "@ + decimal(actual.revisions.aggregate as nat),
    );
    lemma_says(
        text,
        "reading effect was captured at document "@
            + decimal(expected.document_generation as nat),
        "/revision "@,
        "/revision "@,
        decimal(expected.revisions.aggregate as nat),
        ", current is document "@ + decimal(actual.document_generation as nat)
            + "/revision "@ + decimal(actual.revisions.aggregate as nat),
    );
    lemma_says(
        text,
        "reading effect was captured at document "@
            + decimal(expected.document_generation as nat) + "/revision "@
            + decimal(expected.revisions.aggregate as nat),
        ", current is document "@,
        "current is document "@,
        decimal(actual.document_generation as nat),
        "/revision "@ + decimal(actual.revisions.aggregate as nat),
    );
    lemma_says(
        text,
        "reading effect was captured at document "@
            + decimal(expected.document_generation as nat) + "/revision "@
            + decimal(expected.revisions.aggregate as nat) + ", current is document "@
            + decimal(actual.document_generation as nat),
        "/revision "@,
        "/revision "@,
        decimal(actual.revisions.aggregate as nat),
        none,
    );
}

/// Frames outside a comparison are said beside those of the comparison.
#[verifier::spinoff_prover]
#[verifier::rlimit(60)]
pub proof fn frames_outside_are_said(focus: FrameSpan, comparison: FrameSpan, host: HostWords)
    ensures
        ({
            let text = effect_message(EffectFault::FocusOutsideComparison { focus, comparison }, host);
            &&& says(text, "focus "@, signed_decimal(focus.start as int))
            &&& says(text, ".."@, signed_decimal(focus.end as int))
            &&& says(text, "outside comparison "@, signed_decimal(comparison.start as int))
            &&& says(text, ".."@, signed_decimal(comparison.end as int))
        }),
{
    reveal_strlit("reading focus ");
    reveal_strlit("focus ");
    reveal_strlit("..");
    reveal_strlit(" is outside comparison ");
    reveal_strlit("outside comparison ");
    let text = effect_message(EffectFault::FocusOutsideComparison { focus, comparison }, host);
    let none = Seq::<char>::empty();
    lemma_says(
        text,
        none,
        "reading focus "@,
        "focus "@,
        signed_decimal(focus.start as int),
        ".."@ + signed_decimal(focus.end as int) + " is outside comparison "@
            + signed_decimal(comparison.start as int) + ".."@
            + signed_decimal(comparison.end as int),
    );
    lemma_says(
        text,
        "reading focus "@ + signed_decimal(focus.start as int),
        ".."@,
        ".."@,
        signed_decimal(focus.end as int),
        " is outside comparison "@ + signed_decimal(comparison.start as int) + ".."@
            + signed_decimal(comparison.end as int),
    );
    lemma_says(
        text,
        "reading focus "@ + signed_decimal(focus.start as int) + ".."@
            + signed_decimal(focus.end as int),
        " is outside comparison "@,
        "outside comparison "@,
        signed_decimal(comparison.start as int),
        ".."@ + signed_decimal(comparison.end as int),
    );
    lemma_says(
        text,
        "reading focus "@ + signed_decimal(focus.start as int) + ".."@
            + signed_decimal(focus.end as int) + " is outside comparison "@
            + signed_decimal(comparison.start as int),
        ".."@,
        ".."@,
        signed_decimal(comparison.end as int),
        none,
    );
}

/// A reference to another reading is said with the entity that makes it.
pub proof fn foreign_references_are_said(
    entity: EntityKey,
    reference: EntityKey,
    host: HostWords,
)
    ensures
        ({
            let text = workflow_message(WorkflowFault::ForeignReadingReference { entity, reference }, host);
            &&& says(text, "export entity "@, entity_text(entity))
            &&& says(text, "different reading entity "@, entity_text(reference))
        }),
{
    reveal_strlit("export entity ");
    reveal_strlit(" refers to different reading entity ");
    reveal_strlit("different reading entity ");
    let text = workflow_message(WorkflowFault::ForeignReadingReference { entity, reference }, host);
    let none = Seq::<char>::empty();
    lemma_says(
        text,
        none,
        "export entity "@,
        "export entity "@,
        entity_text(entity),
        " refers to different reading entity "@ + entity_text(reference),
    );
    lemma_says(
        text,
        "export entity "@ + entity_text(entity),
        " refers to different reading entity "@,
        "different reading entity "@,
        entity_text(reference),
        none,
    );
}

} // verus!
