//! Sections of a reading, found and patched without losing what is not known.
//!
//! An updated section keeps every member of its payload that the update did not
//! mention, so that data of a newer producer survives a narrow update.

use vstd::prelude::*;

use crate::json::{distinct_names, member_value, member_views, merge_object, JsonPayload};
use crate::reading::{PortableDigest, ReadingError, ReadingFile, ReadingSection};
use crate::text::{owned, same_text, with_line_break};

verus! {

/// Why a reading could not be decoded, encoded or patched.
#[derive(Debug, PartialEq)]
pub enum ReadingCodecError {
    Json(String),
    Invalid(ReadingError),
    MissingSection(String),
    UnsupportedSection { name: String, major: u32 },
    SectionJson { name: String, message: String },
    OpaquePayloadCannotBePatched(String),
    TypedPayloadMustBeObject(String),
}

/// The bytes of a reading, and the digest of the manifest that they are checked
/// against.
#[derive(Debug, PartialEq, Eq)]
pub struct EncodedReading {
    pub bytes: Vec<u8>,
    pub manifest_digest: PortableDigest,
}

/// A typed value beside the section it was decoded from.
#[derive(Debug, PartialEq)]
pub struct DecodedSection<T> {
    pub value: T,
    pub raw: ReadingSection,
}

/// Takes a reading that was parsed, if it is valid.
pub fn decode_reading(parsed: Result<ReadingFile, String>) -> (r: Result<
    ReadingFile,
    ReadingCodecError,
>)
    ensures
        r == match parsed {
            Err(message) => Err::<ReadingFile, ReadingCodecError>(
                ReadingCodecError::Json(message),
            ),
            Ok(reading) => match reading.fault() {
                Some(error) => Err(ReadingCodecError::Invalid(error)),
                None => Ok(reading),
            },
        },
{
    let reading = match parsed {
        Ok(reading) => reading,
        Err(message) => {
            return Err(ReadingCodecError::Json(message));
        },
    };
    match reading.validate() {
        Ok(()) => Ok(reading),
        Err(error) => Err(ReadingCodecError::Invalid(error)),
    }
}

/// A reading that is ready to be written: valid and in canonical order.
#[derive(Debug, PartialEq)]
pub struct EncodableReading {
    pub reading: ReadingFile,
}

/// Makes a reading ready to be written. An invalid one is refused.
pub fn encode_reading(reading: ReadingFile) -> (r: Result<EncodableReading, ReadingCodecError>)
    ensures
        match reading.fault() {
            Some(error) => r == Err::<EncodableReading, ReadingCodecError>(
                ReadingCodecError::Invalid(error),
            ),
            None => r matches Ok(ready) && ready.reading.is_canonical_form_of(reading),
        },
{
    match reading.validate() {
        Ok(()) => Ok(EncodableReading { reading: reading.canonical() }),
        Err(error) => Err(ReadingCodecError::Invalid(error)),
    }
}

impl EncodableReading {
    /// The document, given its text: it ends with a line break.
    pub fn finish(self, text: Result<String, String>) -> (r: Result<String, ReadingCodecError>)
        ensures
            match text {
                Err(message) => r == Err::<String, ReadingCodecError>(
                    ReadingCodecError::Json(message),
                ),
                Ok(text) => r matches Ok(document) && document@ == text@.push('\n'),
            },
    {
        match text {
            Err(message) => Err(ReadingCodecError::Json(message)),
            Ok(text) => Ok(with_line_break(text)),
        }
    }
}

/// The index of the first section with a name, from index `i` on.
pub open spec fn section_index(sections: Seq<ReadingSection>, name: Seq<char>, i: int) -> Option<
    int,
>
    decreases sections.len() - i,
{
    if i < 0 || i >= sections.len() {
        None
    } else if sections[i].name@ == name {
        Some(i)
    } else {
        section_index(sections, name, i + 1)
    }
}

/// The index of the first section with a name.
pub fn find_section(sections: &Vec<ReadingSection>, name: &str) -> (r: Option<usize>)
    ensures
        match r {
            Some(i) => section_index(sections@, name@, 0) == Some(i as int) && i < sections.len()
                && sections@[i as int].name@ == name@,
            None => section_index(sections@, name@, 0) is None,
        },
{
    let mut i: usize = 0;
    while i < sections.len()
        invariant
            i <= sections.len(),
            section_index(sections@, name@, 0) == section_index(sections@, name@, i as int),
        decreases sections.len() - i,
    {
        if same_text(sections[i].name.as_str(), name) {
            return Some(i);
        }
        i = i + 1;
    }
    None
}

/// What a lookup of a section says, by name and supported schema.
pub enum SectionFault {
    Missing,
    Unsupported { major: u32 },
}

/// Why the section with a name cannot be decoded.
pub open spec fn section_fault(reading: ReadingFile, name: Seq<char>, supported_major: u32) -> Option<
    SectionFault,
> {
    match section_index(reading.sections@, name, 0) {
        None => Some(SectionFault::Missing),
        Some(i) => if reading.sections@[i].schema_major != supported_major {
            Some(SectionFault::Unsupported { major: reading.sections@[i].schema_major })
        } else {
            None
        },
    }
}

/// Finds the section to decode: the first with the name, if its schema is the
/// supported one.
pub fn locate_section(reading: &ReadingFile, name: &str, supported_major: u32) -> (r: Result<
    usize,
    ReadingCodecError,
>)
    ensures
        match r {
            Ok(i) => section_fault(*reading, name@, supported_major) is None && section_index(
                reading.sections@,
                name@,
                0,
            ) == Some(i as int) && i < reading.sections@.len(),
            Err(ReadingCodecError::MissingSection(missing)) => missing@ == name@ && section_fault(
                *reading,
                name@,
                supported_major,
            ) == Some(SectionFault::Missing),
            Err(ReadingCodecError::UnsupportedSection { name: found, major }) => found@ == name@
                && section_fault(*reading, name@, supported_major) == Some(
                SectionFault::Unsupported { major },
            ),
            Err(_) => false,
        },
{
    match find_section(&reading.sections, name) {
        None => Err(ReadingCodecError::MissingSection(owned(name))),
        Some(i) => {
            let major: u32 = reading.sections[i].schema_major;
            if major != supported_major {
                Err(ReadingCodecError::UnsupportedSection { name: owned(name), major })
            } else {
                Ok(i)
            }
        },
    }
}

/// Decodes a section, given what the decoder made of its payload. The decoder's
/// word is taken only for a section that is there under the supported schema.
pub fn decode_section<T>(
    reading: &ReadingFile,
    name: &str,
    supported_major: u32,
    decoded: Result<T, String>,
) -> (r: Result<DecodedSection<T>, ReadingCodecError>)
    ensures
        match r {
            Ok(section) => {
                &&& section_fault(*reading, name@, supported_major) is None
                &&& decoded == Ok::<T, String>(section.value)
                &&& section.raw@ == reading.sections@[section_index(reading.sections@, name@, 0)->0]@
            },
            Err(ReadingCodecError::MissingSection(missing)) => missing@ == name@ && section_fault(
                *reading,
                name@,
                supported_major,
            ) == Some(SectionFault::Missing),
            Err(ReadingCodecError::UnsupportedSection { name: found, major }) => found@ == name@
                && section_fault(*reading, name@, supported_major) == Some(
                SectionFault::Unsupported { major },
            ),
            Err(ReadingCodecError::SectionJson { name: found, message }) => {
                &&& found@ == name@
                &&& section_fault(*reading, name@, supported_major) is None
                &&& decoded == Err::<T, String>(message)
            },
            Err(_) => false,
        },
{
    match locate_section(reading, name, supported_major) {
        Err(error) => Err(error),
        Ok(i) => match decoded {
            Ok(value) => Ok(DecodedSection { value, raw: reading.sections[i].copy() }),
            Err(message) => Err(ReadingCodecError::SectionJson { name: owned(name), message }),
        },
    }
}

/// What patching a section with a new value comes to.
pub open spec fn is_patched(
    section: ReadingSection,
    value: Result<JsonPayload, String>,
    outcome: Result<ReadingSection, ReadingCodecError>,
) -> bool {
    match value {
        Err(message) => outcome matches Err(ReadingCodecError::SectionJson { name, message: said })
            && name@ == section.name@ && said == message,
        Ok(new) => match (section.payload, new) {
            (JsonPayload::Opaque(_), _) => outcome matches Err(
                ReadingCodecError::OpaquePayloadCannotBePatched(name),
            ) && name@ == section.name@,
            (JsonPayload::Object(_), JsonPayload::Opaque(_)) => outcome matches Err(
                ReadingCodecError::TypedPayloadMustBeObject(name),
            ) && name@ == section.name@,
            (JsonPayload::Object(kept), JsonPayload::Object(given)) => {
                &&& outcome matches Ok(updated)
                &&& updated.name@ == section.name@
                &&& updated.schema_major == section.schema_major
                &&& updated.schema_minor == section.schema_minor
                &&& member_views(updated.extensions@) == member_views(section.extensions@)
                &&& updated.payload matches JsonPayload::Object(merged)
                &&& distinct_names(member_views(merged@))
                &&& forall|name: Seq<char>|
                    #[trigger] member_value(member_views(merged@), name) == (match member_value(
                        member_views(given@),
                        name,
                    ) {
                        Some(text) => Some(text),
                        None => member_value(member_views(kept@), name),
                    })
            },
        },
    }
}

/// Replaces the members of a section's payload that a typed value names and
/// keeps all others. Only objects can be patched: an older build cannot patch
/// an opaque array or scalar safely.
pub fn replace_payload_preserving_unknown(
    section: &ReadingSection,
    value: Result<JsonPayload, String>,
) -> (r: Result<ReadingSection, ReadingCodecError>)
    requires
        section.payload matches JsonPayload::Object(members) ==> distinct_names(
            member_views(members@),
        ),
        value matches Ok(JsonPayload::Object(members)) ==> distinct_names(member_views(members@)),
    ensures
        is_patched(*section, value, r),
{
    let new_payload = match value {
        Ok(payload) => payload,
        Err(message) => {
            return Err(ReadingCodecError::SectionJson { name: section.name.clone(), message });
        },
    };
    let kept = match &section.payload {
        JsonPayload::Object(members) => members,
        JsonPayload::Opaque(_) => {
            return Err(ReadingCodecError::OpaquePayloadCannotBePatched(section.name.clone()));
        },
    };
    let given = match &new_payload {
        JsonPayload::Object(members) => members,
        JsonPayload::Opaque(_) => {
            return Err(ReadingCodecError::TypedPayloadMustBeObject(section.name.clone()));
        },
    };
    let mut merged = crate::json::copy_members(kept);
    merge_object(&mut merged, given);
    Ok(
        ReadingSection {
            name: section.name.clone(),
            schema_major: section.schema_major,
            schema_minor: section.schema_minor,
            payload: JsonPayload::Object(merged),
            extensions: crate::json::copy_members(&section.extensions),
        },
    )
}

} // verus!
