use std::collections::BTreeMap;

use audec::command::{CommandEnvelope, DomainCommand, HypothesisSelection, IdClaim};
use audec::foreign_import::{
    lower_foreign_hypothesis_import, ForeignHypothesisAllocationDto, ForeignImportRefusal,
    HypothesisSetAllocationDto,
};
use audec::json::JsonPayload;
use audec::navigation::{AspectGeometryDto, EntityRefDto, RegionDto, SignalLayerDto};
use audec::reading::{
    LocalSourceDescriptor, PortableDigest, PortableDigestAlgorithm, ProducerDto, ProvenanceDto,
    QualifiedEntityId, ReadingError, ReadingFile, ReadingId, ReadingSection, ReadingSource,
    ReadingVerificationRefusal, ReplicationCheck, VerificationTier, READING_FORMAT,
    READING_FORMAT_VERSION,
};
use audec::reading_codec::{encode_reading, EncodedReading, ReadingCodecError};
use audec::reading_diff::{
    diff_readings, semantic_diff_readings, SectionChangeKind, SemanticChangeKind,
};
use audec::reading_export::{
    assemble_export, export_entities, export_reading, ExportedReading, ReadingExportRequest,
    WrittenEntities,
};
use audec::reading_import::{
    plan_reading_import, DecodedReading, ImportDisposition, PortableEntityRecord,
    PortableEntityRole, PortableHypothesisSemantics, ReadingActionRefusal, ReadingImportOptions,
    ReadingImportPlan, ReadingImportRefusal, UnknownSectionPolicy, ENTITY_SECTION_MAJOR,
    ENTITY_SECTION_NAME,
};
use audec::reading_merge::{merge_as_coexisting_hypotheses, ReadingMergeRefusal};
use audec::reading_source::{
    resolve_reading_source, LocalMaterialId, LocalReadingMaterial, ReadingSourceResolution,
};
use audec::reading_workflow::{
    plan_reading_workflow, ReadingCommandAllocations, ReadingWorkflowDiagnosticCode,
    ReadingWorkflowRefusal, ReadingWorkflowRequest,
};
use audec::wording::HostWords;

fn digest(byte: u8) -> PortableDigest {
    PortableDigest {
        algorithm: PortableDigestAlgorithm::Sha256,
        bytes: [byte; 32],
    }
}

fn author(name: Option<&str>) -> ProvenanceDto {
    ProvenanceDto {
        producer: ProducerDto::Human {
            name: name.map(|name| name.to_string()),
        },
        created_unix_ms: None,
        source_revision: None,
        note: None,
    }
}

fn geometry(start: i64, end: i64) -> AspectGeometryDto {
    AspectGeometryDto {
        regions: vec![RegionDto {
            start_frame: start,
            end_frame: end,
            min_hz_bits: 0.0_f32.to_bits(),
            max_hz_bits: 24_000.0_f32.to_bits(),
            channels: 1,
        }],
        objects: Vec::new(),
        signal: SignalLayerDto::Source,
    }
}

fn hypothesis(label: &str, group: &str, extent: AspectGeometryDto) -> PortableEntityRecord {
    PortableEntityRecord {
        kind: "hypothesis".into(),
        local_id: 1,
        label: label.into(),
        role: PortableEntityRole::Hypothesis,
        hypothesis: Some(PortableHypothesisSemantics {
            support_bits: 0.5_f32.to_bits(),
            description: Some(label.into()),
        }),
        hypothesis_group: Some(group.into()),
        extent: Some(extent),
        extensions: Vec::new(),
    }
}

fn reading(id_byte: u8, sections: Vec<ReadingSection>) -> ReadingFile {
    ReadingFile {
        format: READING_FORMAT.into(),
        version: READING_FORMAT_VERSION,
        reading_id: ReadingId::new([id_byte; 16]).unwrap(),
        revision: 1,
        parents: Vec::new(),
        author: author(None),
        source: ReadingSource {
            fingerprints: vec![digest(4)],
            sample_rate: 48_000,
            channels: 1,
            frame_count: 100,
            declared_title: None,
            extensions: Vec::new(),
        },
        sections,
        attachments: Vec::new(),
        extensions: Vec::new(),
    }
}

/// A section of entities, and what it decodes to.
fn entity_section(label: &str) -> (ReadingSection, Vec<PortableEntityRecord>) {
    let section = ReadingSection {
        name: ENTITY_SECTION_NAME.into(),
        schema_major: ENTITY_SECTION_MAJOR,
        schema_minor: 0,
        payload: JsonPayload::parse(&format!("{{\"entities\": [{label:?}]}}")).unwrap(),
        extensions: Vec::new(),
    };
    (
        section,
        vec![hypothesis(label, "source-model", geometry(0, 20))],
    )
}

fn decoded(id_byte: u8, label: &str) -> DecodedReading {
    let (section, records) = entity_section(label);
    DecodedReading {
        reading: reading(id_byte, vec![section]),
        entities: Ok(records),
    }
}

fn plan(id_byte: u8, label: &str) -> ReadingImportPlan {
    let input = decoded(id_byte, label);
    plan_reading_import(
        &input.reading,
        &input.entities,
        None,
        &Vec::new(),
        ReadingImportOptions::default(),
    )
    .unwrap()
}

/// A project that takes hypotheses, and gives them up again.
#[derive(Default)]
struct Air {
    hypotheses: BTreeMap<u64, String>,
    hypothesis_sets: BTreeMap<u64, (Vec<u64>, HypothesisSelection)>,
}

impl Air {
    fn put(&mut self, command: &DomainCommand, undoing: bool) {
        match command {
            DomainCommand::PutHypothesis { before, after } => {
                let (old, new) = if undoing { (after, before) } else { (before, after) };
                if let Some(old) = old {
                    self.hypotheses.remove(&old.id.0);
                }
                if let Some(new) = new {
                    self.hypotheses.insert(new.id.0, new.label.clone());
                }
            }
            DomainCommand::PutHypothesisSet { before, after } => {
                let (old, new) = if undoing { (after, before) } else { (before, after) };
                if let Some(old) = old {
                    self.hypothesis_sets.remove(&old.id.0);
                }
                if let Some(new) = new {
                    let alternatives = new.alternatives.iter().map(|id| id.0).collect();
                    self.hypothesis_sets
                        .insert(new.id.0, (alternatives, new.selection));
                }
            }
            other => panic!("an import puts only hypotheses, not {other:?}"),
        }
    }

    fn apply(&mut self, envelope: &CommandEnvelope) {
        for command in &envelope.commands {
            self.put(command, false);
        }
    }

    fn undo(&mut self, envelope: &CommandEnvelope) {
        for command in envelope.commands.iter().rev() {
            self.put(command, true);
        }
    }
}

fn foreign_claims(envelope: &CommandEnvelope) -> usize {
    envelope
        .id_claims
        .iter()
        .filter(|claim| matches!(claim, IdClaim::Foreign { .. }))
        .count()
}

#[test]
fn missing_source_keeps_graph_import_but_refuses_audition() {
    let plan = plan(1, "hypothesis A");
    assert_eq!(plan.verification, VerificationTier::GraphOnly);
    assert_eq!(
        plan.entities[0].disposition,
        ImportDisposition::PreserveCoexistingHypothesis
    );
    assert!(matches!(
        plan.audition_target(&plan.entities[0].id),
        Err(ReadingActionRefusal::SourceUnavailable)
    ));
    assert!(matches!(
        plan.reveal_target(&plan.entities[0].id).unwrap().entity,
        EntityRefDto::Reading(_)
    ));
}

#[test]
fn missing_and_unknown_sections_are_explicit_and_unknowns_can_be_preserved() {
    let missing = reading(2, Vec::new());
    assert!(matches!(
        plan_reading_import(
            &missing,
            &Err("no section".into()),
            None,
            &Vec::new(),
            ReadingImportOptions::default(),
        ),
        Err(ReadingImportRefusal::MissingSection(name)) if name == ENTITY_SECTION_NAME
    ));

    let unknown = ReadingSection {
        name: "future-claims".into(),
        schema_major: 1,
        schema_minor: 0,
        payload: JsonPayload::parse("{\"opaque\": true}").unwrap(),
        extensions: Vec::new(),
    };
    let (section, records) = entity_section("h");
    let reading = reading(3, vec![section, unknown]);
    let entities = Ok(records);
    assert!(matches!(
        plan_reading_import(
            &reading,
            &entities,
            None,
            &Vec::new(),
            ReadingImportOptions {
                unknown_sections: UnknownSectionPolicy::Refuse,
                require_entity_section: true,
            },
        ),
        Err(ReadingImportRefusal::UnknownSection(name)) if name == "future-claims"
    ));
    let plan = plan_reading_import(
        &reading,
        &entities,
        None,
        &Vec::new(),
        ReadingImportOptions::default(),
    )
    .unwrap();
    assert_eq!(plan.opaque_sections, vec!["future-claims"]);
    let JsonPayload::Object(members) = &plan.preserved_sections[0].payload else {
        panic!("the payload is kept as it was")
    };
    assert_eq!(
        (members[0].name.as_str(), members[0].value.as_str()),
        ("opaque", "true")
    );
}

#[test]
fn import_and_diff_never_collapse_equal_local_hypothesis_ids_across_readings() {
    let left = decoded(7, "A");
    let right = decoded(8, "B");
    let left_plan = plan(7, "A");
    let existing = vec![left_plan.entities[0].id.clone()];
    let right_plan = plan_reading_import(
        &right.reading,
        &right.entities,
        None,
        &existing,
        ReadingImportOptions::default(),
    )
    .unwrap();
    assert_ne!(left_plan.entities[0].id, right_plan.entities[0].id);
    assert_eq!(
        right_plan.entities[0].disposition,
        ImportDisposition::PreserveCoexistingHypothesis
    );

    let diff = diff_readings(&left, &right).unwrap();
    assert_eq!(diff.entities.len(), 2);
    assert!(diff
        .entities
        .iter()
        .any(|change| change.kind == SectionChangeKind::Removed));
    assert!(diff
        .entities
        .iter()
        .any(|change| change.kind == SectionChangeKind::Added));
}

#[test]
fn semantic_merge_lowers_to_one_undoable_foreign_id_envelope() {
    let merge =
        merge_as_coexisting_hypotheses(&vec![plan(10, "alternative A"), plan(11, "alternative B")])
            .unwrap();
    assert_eq!(merge.hypothesis_groups.len(), 1);
    assert_eq!(merge.hypothesis_groups[0].alternatives.len(), 2);

    let hypothesis_allocations = vec![
        ForeignHypothesisAllocationDto {
            foreign: merge.entities[0].id.clone(),
            project_id: 101,
        },
        ForeignHypothesisAllocationDto {
            foreign: merge.entities[1].id.clone(),
            project_id: 102,
        },
    ];
    let set_allocations = vec![HypothesisSetAllocationDto {
        group: "source-model".into(),
        project_id: 201,
    }];
    let lowered =
        lower_foreign_hypothesis_import(&merge, 0, &hypothesis_allocations, &set_allocations)
            .unwrap();
    assert_eq!(lowered.mappings.len(), 2);
    assert_eq!(lowered.envelope.commands.len(), 3);
    assert_eq!(foreign_claims(&lowered.envelope), 2);

    let mut project = Air::default();
    project.apply(&lowered.envelope);
    assert_eq!(project.hypotheses.len(), 2);
    let (alternatives, selection) = &project.hypothesis_sets[&201];
    assert_eq!(*alternatives, vec![101, 102]);
    assert_eq!(*selection, HypothesisSelection::Unresolved);
    project.undo(&lowered.envelope);
    assert!(project.hypotheses.is_empty());
    assert!(project.hypothesis_sets.is_empty());
}

#[test]
fn source_mismatch_is_a_refusal_not_a_warning() {
    let input = decoded(9, "h");
    let local = LocalSourceDescriptor {
        digest: digest(5),
        sample_rate: 48_000,
        channels: 1,
        frame_count: 100,
    };
    assert!(matches!(
        plan_reading_import(
            &input.reading,
            &input.entities,
            Some(&local),
            &Vec::new(),
            ReadingImportOptions::default(),
        ),
        Err(ReadingImportRefusal::SourceVerification(
            ReadingVerificationRefusal::FingerprintMismatch { .. }
        ))
    ));
}

#[test]
fn source_match_upgrades_only_after_explicit_replication_checks() {
    let input = decoded(12, "replicable");
    let local = LocalSourceDescriptor {
        digest: digest(4),
        sample_rate: 48_000,
        channels: 1,
        frame_count: 100,
    };
    let mut plan = plan_reading_import(
        &input.reading,
        &input.entities,
        Some(&local),
        &Vec::new(),
        ReadingImportOptions::default(),
    )
    .unwrap();
    assert_eq!(plan.verification, VerificationTier::SourceMatched);
    let subject = plan.entities[0].id.clone();
    plan.record_replication(&vec![ReplicationCheck {
        subject,
        matches: true,
    }])
    .unwrap();
    assert_eq!(plan.verification, VerificationTier::Replicated);
    assert!(plan.audition_target(&plan.entities[0].id).is_ok());
}

#[test]
fn entities_that_cannot_be_imported_are_refused_one_by_one() {
    let import = |records: Result<Vec<PortableEntityRecord>, String>| {
        let (section, _) = entity_section("h");
        plan_reading_import(
            &reading(6, vec![section]),
            &records,
            None,
            &Vec::new(),
            ReadingImportOptions::default(),
        )
    };
    assert!(matches!(
        import(Err("no list".into())),
        Err(ReadingImportRefusal::Codec(
            ReadingCodecError::SectionJson { .. }
        ))
    ));
    let twice = vec![
        hypothesis("a", "g", geometry(0, 20)),
        hypothesis("b", "g", geometry(0, 20)),
    ];
    assert!(matches!(
        import(Ok(twice)),
        Err(ReadingImportRefusal::DuplicateEntity(_))
    ));
    assert!(matches!(
        import(Ok(vec![hypothesis(" ", "g", geometry(0, 20))])),
        Err(ReadingImportRefusal::BlankEntityLabel(_))
    ));
    let mut doubtful = hypothesis("a", "g", geometry(0, 20));
    doubtful.hypothesis.as_mut().unwrap().support_bits = 1.5_f32.to_bits();
    assert!(matches!(
        import(Ok(vec![doubtful])),
        Err(ReadingImportRefusal::InvalidHypothesis(_))
    ));
    let mut foreign = hypothesis("a", "g", geometry(0, 20));
    foreign.extent.as_mut().unwrap().objects = vec![EntityRefDto::Reading(
        QualifiedEntityId::new(ReadingId::new([9; 16]).unwrap(), "air-object".into(), 2).unwrap(),
    )];
    assert!(matches!(
        import(Ok(vec![foreign])),
        Err(ReadingImportRefusal::ForeignReadingIdentity(_))
    ));
    assert!(matches!(
        import(Ok(vec![hypothesis("a", "g", geometry(20, 0))])),
        Err(ReadingImportRefusal::Workbench(_))
    ));
    let mut invalid = decoded(6, "h");
    invalid.reading.revision = 0;
    assert_eq!(
        plan_reading_import(
            &invalid.reading,
            &invalid.entities,
            None,
            &Vec::new(),
            ReadingImportOptions::default()
        )
        .err(),
        Some(ReadingImportRefusal::InvalidReading(
            ReadingError::ZeroRevision
        ))
    );
}

#[test]
fn merging_a_version_twice_is_refused() {
    assert!(matches!(
        merge_as_coexisting_hypotheses(&vec![plan(10, "a"), plan(10, "a")]),
        Err(ReadingMergeRefusal::DuplicateReadingVersion { revision: 1, .. })
    ));
    let mut later = plan(10, "b");
    later.reading_revision = 2;
    assert!(matches!(
        merge_as_coexisting_hypotheses(&vec![plan(10, "a"), later]),
        Err(ReadingMergeRefusal::ConflictingQualifiedEntity(_))
    ));
}

#[test]
fn lowering_needs_exactly_the_allocations_it_uses() {
    let merge = merge_as_coexisting_hypotheses(&vec![plan(10, "a"), plan(11, "b")]).unwrap();
    let allocation = |entity: usize, project_id: u64| ForeignHypothesisAllocationDto {
        foreign: merge.entities[entity].id.clone(),
        project_id,
    };
    let sets = vec![HypothesisSetAllocationDto {
        group: "source-model".into(),
        project_id: 201,
    }];
    assert!(matches!(
        lower_foreign_hypothesis_import(&merge, 0, &vec![allocation(0, 1)], &sets),
        Err(ForeignImportRefusal::AllocationSetMismatch)
    ));
    assert!(matches!(
        lower_foreign_hypothesis_import(
            &merge,
            0,
            &vec![allocation(0, 1), allocation(1, 1)],
            &sets
        ),
        Err(ForeignImportRefusal::DuplicateOrZeroAllocation)
    ));
    assert!(matches!(
        lower_foreign_hypothesis_import(
            &merge,
            0,
            &vec![allocation(0, 1), allocation(1, 2)],
            &Vec::new()
        ),
        Err(ForeignImportRefusal::MissingSetAllocation(group)) if group == "source-model"
    ));
    let empty = merge_as_coexisting_hypotheses(&Vec::new()).unwrap();
    assert!(matches!(
        lower_foreign_hypothesis_import(&empty, 0, &Vec::new(), &Vec::new()),
        Err(ForeignImportRefusal::NothingToImport)
    ));
}

#[test]
fn a_reading_does_not_differ_from_itself() {
    let diff = semantic_diff_readings(&decoded(7, "A"), &decoded(7, "A")).unwrap();
    assert!(!diff.structural.source_changed);
    assert!(diff
        .structural
        .entities
        .iter()
        .all(|change| change.kind == SectionChangeKind::Unchanged));
    assert_eq!(
        diff.hypotheses[0].kind,
        SemanticChangeKind::EquivalentAlternatives
    );
    let changed = semantic_diff_readings(&decoded(7, "A"), &decoded(7, "B")).unwrap();
    assert_eq!(
        changed.hypotheses[0].kind,
        SemanticChangeKind::ChangedAlternatives
    );
}

fn extent() -> AspectGeometryDto {
    AspectGeometryDto {
        regions: vec![RegionDto {
            start_frame: 10,
            end_frame: 30,
            min_hz_bits: 100.0_f32.to_bits(),
            max_hz_bits: 8_000.0_f32.to_bits(),
            channels: 1,
        }],
        objects: vec![EntityRefDto::Project {
            kind: "air-object".into(),
            local_id: 4,
        }],
        signal: SignalLayerDto::Source,
    }
}

fn request(id_byte: u8, label: &str) -> ReadingExportRequest {
    ReadingExportRequest {
        reading_id: ReadingId::new([id_byte; 16]).unwrap(),
        revision: 1,
        parents: Vec::new(),
        author: author(Some(label)),
        source: ReadingSource {
            fingerprints: vec![digest(9)],
            sample_rate: 48_000,
            channels: 1,
            frame_count: 100,
            declared_title: Some("same recording".into()),
            extensions: Vec::new(),
        },
        entities: vec![hypothesis(label, "what-makes-the-pulse", extent())],
        additional_sections: vec![ReadingSection {
            name: "future-lexicon".into(),
            schema_major: 1,
            schema_minor: 0,
            payload: JsonPayload::parse("{\"term\": \"woolly\"}").unwrap(),
            extensions: Vec::new(),
        }],
        attachments: Vec::new(),
        extensions: Vec::new(),
    }
}

/// The entities of a request, written and read back.
fn written(id_byte: u8, label: &str) -> WrittenEntities {
    let records = || export_entities(&request(id_byte, label)).unwrap();
    let payload = JsonPayload::parse(&format!("{{\"entities\": {}}}", records().len()));
    WrittenEntities {
        entities: records(),
        payload: Ok(payload.unwrap()),
        decoded: Ok(records()),
    }
}

/// The bytes of a reading, under a digest of the host.
fn encode(reading: ReadingFile) -> Result<EncodedReading, ReadingCodecError> {
    let text = encode_reading(reading)?.finish(Ok("{}".into()))?;
    Ok(EncodedReading {
        bytes: text.into_bytes(),
        manifest_digest: digest(77),
    })
}

fn exported(id_byte: u8, label: &str) -> ExportedReading {
    let reading = assemble_export(request(id_byte, label), written(id_byte, label)).unwrap();
    export_reading(
        request(id_byte, label),
        written(id_byte, label),
        encode(reading),
    )
    .unwrap()
}

fn export(id_byte: u8, label: &str) -> DecodedReading {
    DecodedReading {
        reading: exported(id_byte, label).reading,
        entities: export_entities(&request(id_byte, label)).map_err(|_| String::new()),
    }
}

#[test]
fn export_qualifies_references_and_returns_a_verifiable_manifest() {
    let exported = exported(1, "syncopated bass");
    assert_eq!(exported.reading.version, READING_FORMAT_VERSION);
    assert!(exported.encoded.manifest_digest.is_strong());
    let (bytes, manifest) = exported.check();
    assert_eq!((bytes.as_slice(), manifest), (b"{}\n".as_slice(), digest(77)));
    let reply = assemble_export(request(1, "syncopated bass"), written(1, "syncopated bass"));
    let decoded = exported.verify(Ok(reply.unwrap())).unwrap();
    assert_eq!(decoded, exported.reading);
    let plan = plan_reading_import(
        &decoded,
        &written(1, "syncopated bass").decoded,
        None,
        &Vec::new(),
        ReadingImportOptions::default(),
    )
    .unwrap();
    assert!(matches!(
        &plan.entities[0].extent.as_ref().unwrap().objects[0],
        EntityRefDto::Reading(id) if id.reading == decoded.reading_id
    ));
}

#[test]
fn an_encoder_that_refuses_keeps_the_reading_here() {
    let refused = export_reading(
        request(1, "pulse"),
        written(1, "pulse"),
        Err(ReadingCodecError::Json("too deep".into())),
    );
    assert_eq!(
        refused,
        Err(ReadingWorkflowRefusal::Codec(ReadingCodecError::Json(
            "too deep".into()
        )))
    );
    let changed = exported(1, "pulse").verify(Err(ReadingCodecError::Json("digest".into())));
    assert_eq!(changed, Err(ReadingCodecError::Json("digest".into())));
}

fn material(id: &str, label: &str, byte: u8, frame_count: u64) -> LocalReadingMaterial {
    LocalReadingMaterial {
        id: LocalMaterialId(id.into()),
        label: label.into(),
        source: LocalSourceDescriptor {
            digest: digest(byte),
            sample_rate: 48_000,
            channels: 1,
            frame_count,
        },
    }
}

#[test]
fn exact_resolution_imports_two_level_alternatives_as_one_undoable_plan() {
    let left = export(2, "kick implication");
    let right = export(3, "bass transient");
    let left_id =
        QualifiedEntityId::new(left.reading.reading_id, "hypothesis".into(), 1).unwrap();
    let right_id =
        QualifiedEntityId::new(right.reading.reading_id, "hypothesis".into(), 1).unwrap();
    let materials = vec![
        material("wrong-master", "lossy copy", 8, 100),
        material("asset:44", "local WAV", 9, 100),
    ];
    let allocations = ReadingCommandAllocations {
        hypotheses: vec![
            ForeignHypothesisAllocationDto {
                foreign: left_id.clone(),
                project_id: 101,
            },
            ForeignHypothesisAllocationDto {
                foreign: right_id.clone(),
                project_id: 102,
            },
        ],
        hypothesis_sets: vec![HypothesisSetAllocationDto {
            group: "what-makes-the-pulse".into(),
            project_id: 201,
        }],
    };
    let plan = plan_reading_workflow(ReadingWorkflowRequest {
        readings: &vec![left, right],
        local_materials: &materials,
        existing: &Vec::new(),
        unknown_sections: UnknownSectionPolicy::PreserveOpaque,
        base_revision: 0,
        allocations: &allocations,
    })
    .unwrap();

    assert_ne!(left_id, right_id);
    assert_eq!(plan.command.mappings.len(), 2);
    assert_eq!(plan.command.envelope.commands.len(), 3);
    assert_eq!(plan.command.envelope.coalesce, None);
    assert_eq!(foreign_claims(&plan.command.envelope), 2);
    assert_eq!(plan.results.len(), 2);
    assert!(plan.results.iter().all(|row| {
        matches!(&row.reveal.entity, EntityRefDto::Reading(_))
            && row
                .audition
                .as_ref()
                .is_some_and(|request| request.material.0 == "asset:44")
    }));
    assert_eq!(plan.semantic_diffs[0].hypotheses.len(), 1);
    assert_eq!(
        plan.semantic_diffs[0].hypotheses[0].kind,
        SemanticChangeKind::ChangedAlternatives
    );
    assert!(plan.semantic_diffs[0].hypotheses[0].extents_overlap);
    assert!(plan.diagnostics.iter().any(|diagnostic| {
        diagnostic.code == ReadingWorkflowDiagnosticCode::LocalMaterialRejected
            && diagnostic.message.contains("content fingerprint differs")
    }));

    let mut project = Air::default();
    project.apply(&plan.command.envelope);
    assert_eq!(project.hypotheses.len(), 2);
    assert_eq!(project.hypothesis_sets.len(), 1);
    project.undo(&plan.command.envelope);
    assert!(project.hypotheses.is_empty());
    assert!(project.hypothesis_sets.is_empty());
}

#[test]
fn missing_source_keeps_reveal_and_atomic_import_but_omits_audition() {
    let reading = export(4, "unheard interpretation");
    let id = QualifiedEntityId::new(reading.reading.reading_id, "hypothesis".into(), 1).unwrap();
    let allocations = ReadingCommandAllocations {
        hypotheses: vec![ForeignHypothesisAllocationDto {
            foreign: id,
            project_id: 111,
        }],
        hypothesis_sets: Vec::new(),
    };
    let plan = plan_reading_workflow(ReadingWorkflowRequest {
        readings: &vec![reading],
        local_materials: &Vec::new(),
        existing: &Vec::new(),
        unknown_sections: UnknownSectionPolicy::PreserveOpaque,
        base_revision: 7,
        allocations: &allocations,
    })
    .unwrap();
    assert_eq!(plan.command.envelope.base_revision, 7);
    assert!(matches!(
        plan.resolutions[0].resolution,
        ReadingSourceResolution::Missing(_)
    ));
    assert!(plan.results[0].audition.is_none());
    assert!(matches!(
        &plan.results[0].reveal.entity,
        EntityRefDto::Reading(_)
    ));
    assert!(plan.diagnostics.iter().any(|diagnostic| {
        diagnostic.code == ReadingWorkflowDiagnosticCode::SourceMissing
            && diagnostic
                .message
                .contains("graph import remains available")
    }));
}

#[test]
fn supplied_mismatched_copy_is_refused_instead_of_downgraded_to_missing() {
    let reading = export(5, "must match").reading;
    let wrong = material("selected-lossy-copy", "selected lossy copy", 7, 99);
    let refusal = resolve_reading_source(&reading, &vec![wrong]).unwrap_err();
    let ReadingWorkflowRefusal::SourceCandidatesRefused(diagnostic) = &refusal else {
        panic!("a supplied copy is refused")
    };
    assert!(
        diagnostic.rejected.len() == 1
            && matches!(
                &diagnostic.rejected[0].reason,
                ReadingVerificationRefusal::FrameCount { delta: -1, .. }
            )
    );
    assert!(diagnostic
        .refusal_message()
        .contains("frame count differs"));
}

#[test]
fn workflows_need_readings_and_distinct_materials() {
    let allocations = ReadingCommandAllocations {
        hypotheses: Vec::new(),
        hypothesis_sets: Vec::new(),
    };
    let none = Vec::new();
    assert!(matches!(
        plan_reading_workflow(ReadingWorkflowRequest {
            readings: &none,
            local_materials: &Vec::new(),
            existing: &Vec::new(),
            unknown_sections: UnknownSectionPolicy::PreserveOpaque,
            base_revision: 0,
            allocations: &allocations,
        }),
        Err(ReadingWorkflowRefusal::NoReadings)
    ));
    let reading = export(5, "twice").reading;
    assert!(matches!(
        resolve_reading_source(
            &reading,
            &vec![material("m", "one", 9, 100), material("m", "two", 9, 100)]
        ),
        Err(ReadingWorkflowRefusal::DuplicateLocalMaterial(_))
    ));
    assert!(matches!(
        resolve_reading_source(&reading, &vec![material(" ", "blank", 9, 100)]),
        Err(ReadingWorkflowRefusal::InvalidLocalMaterial { .. })
    ));
    let matched = resolve_reading_source(
        &reading,
        &vec![material("b", "second", 9, 100), material("a", "first", 9, 100)],
    )
    .unwrap();
    assert_eq!(matched.verification(), VerificationTier::SourceMatched);
    assert_eq!(matched.primary().unwrap().id.0, "a");
}

#[test]
fn exports_refuse_what_an_import_would_refuse() {
    let mut reserved = request(6, "x");
    reserved.additional_sections[0].name = ENTITY_SECTION_NAME.into();
    assert!(matches!(
        export_entities(&reserved),
        Err(ReadingWorkflowRefusal::ReservedSection(name)) if name == ENTITY_SECTION_NAME
    ));
    let mut twice = request(6, "x");
    twice.entities.push(hypothesis("y", "g", extent()));
    assert!(matches!(
        export_entities(&twice),
        Err(ReadingWorkflowRefusal::DuplicateExportEntity(_))
    ));
    let mut outside = request(6, "x");
    outside.entities[0].extent.as_mut().unwrap().regions[0].end_frame = 101;
    assert!(matches!(
        export_entities(&outside),
        Err(ReadingWorkflowRefusal::ExtentOutsideSource {
            start_frame: 10,
            end_frame: 101,
            source_frames: 100,
            ..
        })
    ));
    let mut ungrouped = request(6, "x");
    ungrouped.entities[0].hypothesis_group = Some(" ".into());
    assert!(matches!(
        export_entities(&ungrouped),
        Err(ReadingWorkflowRefusal::BlankHypothesisGroup(_))
    ));
    let mut unlabelled = request(6, " ");
    unlabelled.entities[0].hypothesis_group = None;
    assert!(matches!(
        export_entities(&unlabelled),
        Err(ReadingWorkflowRefusal::BlankExportLabel(_))
    ));
}

#[test]
fn identities_are_claimed_once() {
    let twice = |kind: &str| PortableEntityRecord {
        kind: kind.into(),
        ..hypothesis("alternative", "source-model", geometry(0, 20))
    };
    let (section, _) = entity_section("alternative");
    let entities = Ok(vec![twice("hypothesis"), twice("pulse")]);
    let plan = plan_reading_import(
        &reading(12, vec![section]),
        &entities,
        None,
        &Vec::new(),
        ReadingImportOptions::default(),
    )
    .unwrap();
    let merge = merge_as_coexisting_hypotheses(&vec![plan]).unwrap();
    let allocations = vec![
        ForeignHypothesisAllocationDto {
            foreign: merge.entities[0].id.clone(),
            project_id: 5,
        },
        ForeignHypothesisAllocationDto {
            foreign: merge.entities[1].id.clone(),
            project_id: 6,
        },
    ];
    let sets = vec![HypothesisSetAllocationDto {
        group: "source-model".into(),
        project_id: 7,
    }];
    let lowered = lower_foreign_hypothesis_import(&merge, 3, &allocations, &sets).unwrap();
    assert_eq!(lowered.mappings.len(), 2);
    assert_eq!(lowered.envelope.id_claims.len(), 4);
    assert_eq!(foreign_claims(&lowered.envelope), 1);
}

#[test]
fn refusals_of_workflows_have_words() {
    assert_eq!(
        ReadingWorkflowRefusal::ReservedSection("entities".into()).message(&HostWords::none()),
        "export section \"entities\" is owned by the reading workflow"
    );
    assert_eq!(
        ReadingWorkflowRefusal::DuplicateReadingId(ReadingId::new([10; 16]).unwrap())
            .message(&HostWords::none()),
        format!(
            "workflow contains multiple revisions of reading {}; diff them before choosing one \
             revision to import",
            "0a".repeat(16)
        )
    );
}
