use audec::json::{JsonMember, JsonPayload};
use audec::reading::{
    replication_tier, LocalSourceDescriptor, PortableDigest, PortableDigestAlgorithm, ProducerDto,
    ProvenanceDto, QualifiedEntityId, ReadingAttachmentRef, ReadingError, ReadingFile, ReadingId,
    ReadingSection, ReadingSource, ReadingVerificationRefusal, ReadingVersionRef,
    ReplicationCheck, VerificationTier, READING_FORMAT, READING_FORMAT_VERSION,
};
use audec::reading_codec::{
    decode_reading, decode_section, encode_reading, replace_payload_preserving_unknown,
    ReadingCodecError,
};

fn digest(byte: u8) -> PortableDigest {
    PortableDigest {
        algorithm: PortableDigestAlgorithm::Sha256,
        bytes: [byte; 32],
    }
}

fn author() -> ProvenanceDto {
    ProvenanceDto {
        producer: ProducerDto::Human {
            name: Some("ember".into()),
        },
        created_unix_ms: None,
        source_revision: None,
        note: None,
    }
}

fn reading() -> ReadingFile {
    ReadingFile {
        format: READING_FORMAT.into(),
        version: READING_FORMAT_VERSION,
        reading_id: ReadingId::new([1; 16]).unwrap(),
        revision: 1,
        parents: Vec::new(),
        author: author(),
        source: ReadingSource {
            fingerprints: vec![digest(7)],
            sample_rate: 48_000,
            channels: 2,
            frame_count: 100,
            declared_title: None,
            extensions: Vec::new(),
        },
        sections: Vec::new(),
        attachments: Vec::new(),
        extensions: Vec::new(),
    }
}

fn section(name: &str, payload: &str) -> ReadingSection {
    ReadingSection {
        name: name.into(),
        schema_major: 1,
        schema_minor: 7,
        payload: JsonPayload::parse(payload).unwrap(),
        extensions: Vec::new(),
    }
}

fn member<'a>(members: &'a [JsonMember], name: &str) -> &'a str {
    &members
        .iter()
        .find(|member| member.name == name)
        .unwrap()
        .value
}

#[test]
fn source_verification_has_explicit_graph_match_and_refusal_states() {
    let reading = reading();
    assert_eq!(reading.verify_source(None), Ok(VerificationTier::GraphOnly));
    let local = LocalSourceDescriptor {
        digest: digest(7),
        sample_rate: 48_000,
        channels: 2,
        frame_count: 100,
    };
    assert_eq!(
        reading.verify_source(Some(&local)),
        Ok(VerificationTier::SourceMatched)
    );
    let mismatch = LocalSourceDescriptor {
        frame_count: 99,
        ..local
    };
    assert!(matches!(
        reading.verify_source(Some(&mismatch)),
        Err(ReadingVerificationRefusal::FrameCount { delta: -1, .. })
    ));
}

#[test]
fn reading_ids_are_fixed_width_and_round_trip_as_hex() {
    let id = ReadingId::new([0xab; 16]).unwrap();
    assert_eq!(ReadingId::from_text(&id.to_text()).unwrap(), id);
    assert!(ReadingId::from_text("00").is_err());
}

#[test]
fn reading_ids_are_written_in_lower_case_and_never_zero() {
    let id = ReadingId::new([0xab; 16]).unwrap();
    assert_eq!(id.to_text(), "abababababababababababababababab");
    assert!(ReadingId::new([0; 16]).is_none());
    assert_eq!(
        ReadingId::from_text("00000000000000000000000000000000"),
        Err(ReadingError::InvalidReadingId)
    );
    assert_eq!(
        ReadingId::from_text("zzababababababababababababababab"),
        Err(ReadingError::InvalidReadingId)
    );
    assert_eq!(id.bytes(), [0xab; 16]);
}

#[test]
fn every_way_a_local_source_differs_is_told() {
    let reading = reading();
    let local = LocalSourceDescriptor {
        digest: digest(7),
        sample_rate: 48_000,
        channels: 2,
        frame_count: 100,
    };
    let weak = LocalSourceDescriptor {
        digest: PortableDigest {
            algorithm: PortableDigestAlgorithm::StableNonCryptographic,
            bytes: [7; 32],
        },
        ..local
    };
    assert_eq!(
        reading.verify_source(Some(&weak)),
        Err(ReadingVerificationRefusal::WeakLocalFingerprint)
    );
    let other = LocalSourceDescriptor {
        digest: digest(8),
        ..local
    };
    assert_eq!(
        reading.verify_source(Some(&other)),
        Err(ReadingVerificationRefusal::FingerprintMismatch {
            expected: vec![digest(7)],
            actual: digest(8),
        })
    );
    let slow = LocalSourceDescriptor {
        sample_rate: 44_100,
        ..local
    };
    assert_eq!(
        reading.verify_source(Some(&slow)),
        Err(ReadingVerificationRefusal::SampleRate {
            expected: 48_000,
            actual: 44_100,
        })
    );
    let mono = LocalSourceDescriptor {
        channels: 1,
        ..local
    };
    assert_eq!(
        reading.verify_source(Some(&mono)),
        Err(ReadingVerificationRefusal::Channels {
            expected: 2,
            actual: 1,
        })
    );
}

#[test]
fn replication_needs_a_matched_source_and_agreeing_checks() {
    let subject = QualifiedEntityId::new(ReadingId::new([1; 16]).unwrap(), "object".into(), 4)
        .unwrap();
    let check = |matches: bool| ReplicationCheck {
        subject: subject.clone(),
        matches,
    };
    assert_eq!(
        replication_tier(VerificationTier::GraphOnly, &vec![check(true)]),
        Err(ReadingVerificationRefusal::SourceNotMatched)
    );
    assert_eq!(
        replication_tier(VerificationTier::SourceMatched, &Vec::new()),
        Err(ReadingVerificationRefusal::NoReplicationChecks)
    );
    assert_eq!(
        replication_tier(
            VerificationTier::SourceMatched,
            &vec![check(true), check(false)]
        ),
        Err(ReadingVerificationRefusal::ReplicationMismatch(
            subject.clone()
        ))
    );
    assert_eq!(
        replication_tier(VerificationTier::SourceMatched, &vec![check(true)]),
        Ok(VerificationTier::Replicated)
    );
}

#[test]
fn invalid_readings_are_refused_for_one_reason_each() {
    assert_eq!(reading().validate(), Ok(()));

    let mut wrong = reading();
    wrong.format = "audec-song".into();
    assert_eq!(
        wrong.validate(),
        Err(ReadingError::WrongFormat("audec-song".into()))
    );
    let mut newer = reading();
    newer.version = 2;
    assert_eq!(newer.validate(), Err(ReadingError::UnsupportedVersion(2)));
    let mut unrevised = reading();
    unrevised.revision = 0;
    assert_eq!(unrevised.validate(), Err(ReadingError::ZeroRevision));
    let mut anonymous = reading();
    anonymous.source.fingerprints.clear();
    assert_eq!(
        anonymous.validate(),
        Err(ReadingError::WeakOrMissingSourceFingerprint)
    );
    let mut silent = reading();
    silent.source.frame_count = 0;
    assert_eq!(silent.validate(), Err(ReadingError::InvalidSourceFormat));

    let parent = ReadingVersionRef {
        reading_id: ReadingId::new([2; 16]).unwrap(),
        revision: 3,
        manifest_digest: digest(4),
    };
    let mut twice = reading();
    twice.parents = vec![parent, parent];
    assert_eq!(twice.validate(), Err(ReadingError::DuplicateParent(parent)));
    let mut orphan = reading();
    let nothing = ReadingVersionRef {
        revision: 0,
        ..parent
    };
    orphan.parents = vec![nothing];
    assert_eq!(orphan.validate(), Err(ReadingError::InvalidParent(nothing)));

    let mut repeated = reading();
    repeated.sections = vec![section("notes", "{}"), section("notes", "{}")];
    assert_eq!(
        repeated.validate(),
        Err(ReadingError::DuplicateSection("notes".into()))
    );
    let mut unnamed = reading();
    unnamed.sections = vec![section(" ", "{}")];
    assert_eq!(
        unnamed.validate(),
        Err(ReadingError::InvalidSection(" ".into()))
    );
    let mut attached = reading();
    attached.attachments = vec![ReadingAttachmentRef {
        digest: digest(1),
        media_type: "".into(),
        role: "score".into(),
        provenance: author(),
        extensions: Vec::new(),
    }];
    assert!(matches!(
        attached.validate(),
        Err(ReadingError::InvalidAttachment(_))
    ));
    assert!(matches!(
        QualifiedEntityId::new(ReadingId::new([1; 16]).unwrap(), " ".into(), 4),
        Err(ReadingError::InvalidQualifiedId(_))
    ));
}

#[test]
fn canonical_readings_are_sorted_and_stay_so() {
    let mut file = reading();
    file.source.fingerprints = vec![digest(9), digest(7)];
    file.sections = vec![section("b", "{}"), section("a", "1")];
    let canonical = file.canonical();
    assert_eq!(canonical.source.fingerprints, vec![digest(7), digest(9)]);
    let names: Vec<&str> = canonical
        .sections
        .iter()
        .map(|section| section.name.as_str())
        .collect();
    assert_eq!(names, vec!["a", "b"]);
    let again = canonical.canonical();
    assert_eq!(again.sections[0].name, "a");
    assert_eq!(again.source.fingerprints, vec![digest(7), digest(9)]);
}

#[test]
fn unknown_envelope_and_section_values_survive_round_trip_and_patch() {
    let mut file = reading();
    file.source.frame_count = 10;
    let mut comparisons = section(
        "comparisons",
        r#"{"known": 1, "future": {"shape": "retained"}}"#,
    );
    comparisons.extensions = vec![JsonMember {
        name: "future_section_meta".into(),
        value: "true".into(),
    }];
    file.sections.push(comparisons);
    file.extensions = vec![JsonMember {
        name: "future_envelope".into(),
        value: "[1,2,3]".into(),
    }];
    let encoded = encode_reading(file).unwrap();
    let decoded = decode_reading(Ok(encoded.reading)).unwrap();
    assert_eq!(member(&decoded.extensions, "future_envelope"), "[1,2,3]");
    let JsonPayload::Object(members) = &decoded.sections[0].payload else {
        panic!("an object stays an object")
    };
    let known: u64 = member(members, "known").parse().unwrap();
    let section = decode_section(&decoded, "comparisons", 1, Ok(known)).unwrap();
    assert_eq!(section.value, 1);
    let patched = replace_payload_preserving_unknown(
        &section.raw,
        Ok(JsonPayload::parse(r#"{"known": 9}"#).unwrap()),
    )
    .unwrap();
    let JsonPayload::Object(members) = &patched.payload else {
        panic!("an object stays an object")
    };
    assert_eq!(member(members, "known"), "9");
    assert_eq!(member(members, "future"), r#"{"shape":"retained"}"#);
    assert_eq!(member(&patched.extensions, "future_section_meta"), "true");
}

#[test]
fn sections_that_cannot_be_decoded_or_patched_are_refused() {
    let mut file = reading();
    file.sections = vec![section("plain", "[1, 2]"), section("object", "{\"a\": 1}")];
    assert_eq!(
        decode_section(&file, "absent", 1, Ok(0)),
        Err(ReadingCodecError::MissingSection("absent".into()))
    );
    assert_eq!(
        decode_section(&file, "plain", 2, Ok(0)),
        Err(ReadingCodecError::UnsupportedSection {
            name: "plain".into(),
            major: 1,
        })
    );
    assert_eq!(
        decode_section::<u64>(&file, "plain", 1, Err("no number".into())),
        Err(ReadingCodecError::SectionJson {
            name: "plain".into(),
            message: "no number".into(),
        })
    );
    assert_eq!(
        replace_payload_preserving_unknown(
            &file.sections[0],
            Ok(JsonPayload::parse("{\"a\": 2}").unwrap())
        ),
        Err(ReadingCodecError::OpaquePayloadCannotBePatched(
            "plain".into()
        ))
    );
    assert_eq!(
        replace_payload_preserving_unknown(&file.sections[1], Ok(JsonPayload::parse("3").unwrap())),
        Err(ReadingCodecError::TypedPayloadMustBeObject("object".into()))
    );
}

#[test]
fn json_is_read_by_the_parser_and_kept_compact() {
    assert!(JsonPayload::parse("{\"open\": ").is_none());
    let Some(JsonPayload::Opaque(text)) = JsonPayload::parse(" [ 1 , true ] ") else {
        panic!("a list is no object")
    };
    assert_eq!(text, "[1,true]");
    let Some(JsonPayload::Object(members)) = JsonPayload::parse("{\"b\": [ 2 ], \"a\": null}")
    else {
        panic!("an object has members")
    };
    assert_eq!(member(&members, "a"), "null");
    assert_eq!(member(&members, "b"), "[2]");
}

#[test]
fn only_valid_readings_are_written_and_read() {
    let mut file = reading();
    file.sections = vec![section("b", "{}"), section("a", "1")];
    let ready = encode_reading(file).unwrap();
    assert_eq!(ready.reading.sections[0].name, "a");
    assert_eq!(ready.finish(Ok("{}".into())), Ok("{}\n".to_string()));
    assert_eq!(
        encode_reading(reading()).unwrap().finish(Err("io".into())),
        Err(ReadingCodecError::Json("io".into()))
    );

    let mut unread = reading();
    unread.version = READING_FORMAT_VERSION + 1;
    let fault = unread.validate().unwrap_err();
    assert_eq!(
        decode_reading(Ok(unread)),
        Err(ReadingCodecError::Invalid(fault))
    );
    let mut unwritten = reading();
    unwritten.format = "other".into();
    assert!(matches!(
        encode_reading(unwritten),
        Err(ReadingCodecError::Invalid(_))
    ));
    assert_eq!(
        decode_reading(Err("line 1".into())),
        Err(ReadingCodecError::Json("line 1".into()))
    );
}

#[test]
fn canonical_readings_do_not_depend_on_the_order_of_lists() {
    let mut left = reading();
    left.source.fingerprints = vec![digest(9), digest(7)];
    left.sections = vec![section("b", "{}"), section("a", "1"), section("c", "[]")];
    let mut right = reading();
    right.source.fingerprints = vec![digest(7), digest(9)];
    right.sections = vec![section("c", "[]"), section("a", "1"), section("b", "{}")];
    assert_eq!(left.canonical(), right.canonical());
}

#[test]
fn equal_json_values_are_the_same() {
    let value = |text: &str| JsonPayload::parse(text).unwrap();
    assert!(value("{\"gain\": -0.0}").same(&value("{\"gain\": 0.0}")));
    assert!(value("[1, -0.0, {\"a\": -0}]").same(&value("[1, 0.0, {\"a\": 0.0}]")));
    assert!(!value("{\"gain\": \"-0.0\"}").same(&value("{\"gain\": \"0.0\"}")));
    assert!(!value("[-0.05]").same(&value("[0.05]")));
    assert!(!value("[0]").same(&value("[0.0]")));
    assert!(value("\"a\\\"-0.0\"").same(&value("\"a\\\"-0.0\"")));
    assert!(!value("\"a\\\"-0.0\"").same(&value("\"a\\\"0.0\"")));
}

#[test]
fn refusals_of_readings_have_words() {
    assert_eq!(
        ReadingError::WrongFormat("mp3 \"x\"".into()).message(),
        "invalid reading: WrongFormat(\"mp3 \\\"x\\\"\")"
    );
    let parent = ReadingVersionRef {
        reading_id: ReadingId::new([1; 16]).unwrap(),
        revision: 2,
        manifest_digest: digest(7),
    };
    let words = format!(
        "reading codec error: Invalid(DuplicateParent(ReadingVersionRef {{ reading_id: \
         ReadingId({:?}), revision: 2, manifest_digest: PortableDigest {{ algorithm: Sha256, \
         bytes: {:?} }} }}))",
        [1u8; 16], [7u8; 32]
    );
    assert_eq!(
        ReadingCodecError::Invalid(ReadingError::DuplicateParent(parent)).message(),
        words
    );
}
