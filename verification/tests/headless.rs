use std::sync::Arc;

use audec::command::{
    CommandBatch, DomainCommand, Hypothesis, HypothesisId, IdClaim,
};
use audec::foreign_import::{ForeignHypothesisAllocationDto, HypothesisSetAllocationDto};
use audec::json::JsonPayload;
use audec::navigation::{AspectGeometryDto, EntityRefDto, RegionDto, SignalLayerDto};
use audec::pane::{
    short_digest, PaneRefusal, QueryDocumentChangeReason, ReadingQueryOperation,
    ReadingQueryPaneNotice, ReadingQueryView, ReadingQueryViewEffect, ReadingQueryViewFactory,
    ReadingQueryViewInputs, ViewDescriptor,
};
use audec::panels::ResidualPanel;
use audec::protocol::{
    CommandRefusal, DurableCommandBatch, HeadlessDispatch, HeadlessOperation,
    HeadlessProtocolError, HeadlessRequest, HeadlessResponseBody, HeadlessSessionAdapter,
    HeadlessStep, HostAnswer, LocalSourceDto, ReadingInputDto, ReadingRefusal, RequestRefusal,
    VerificationTierDto, HEADLESS_PROTOCOL,
};
use audec::query_builder::QueryWrapOperator;
use audec::query_document::{
    AuditionTarget, FactRef, QueryDocument, QueryDocumentId, QueryExecutionProvenance,
    QueryPageRequest, QueryRow, QueryRun, WORKBENCH_NAMESPACE, WORKBENCH_VIEW_NAME, ViewKind,
};
use audec::query_terms::{FactKindDto, QueryTermDto};
use audec::reading::{
    LocalSourceDescriptor, PortableDigest, PortableDigestAlgorithm, ProducerDto, ProvenanceDto,
    QualifiedEntityId, ReadingFile, ReadingId, ReadingSection, ReadingSource, VerificationTier,
    READING_FORMAT, READING_FORMAT_VERSION,
};
use audec::reading_import::{
    DecodedReading, PortableEntityRecord, PortableEntityRole, PortableHypothesisSemantics,
    UnknownSectionPolicy, ENTITY_SECTION_MAJOR, ENTITY_SECTION_NAME,
};
use audec::workbench_error::WorkbenchError;
use audec::wording::HostWords;

fn digest(byte: u8) -> PortableDigest {
    PortableDigest {
        algorithm: PortableDigestAlgorithm::Sha256,
        bytes: [byte; 32],
    }
}

fn region(start_frame: i64, end_frame: i64) -> RegionDto {
    RegionDto {
        start_frame,
        end_frame,
        min_hz_bits: 0.0_f32.to_bits(),
        max_hz_bits: 1_000.0_f32.to_bits(),
        channels: 1,
    }
}

fn target() -> AuditionTarget {
    let entity = EntityRefDto::Project {
        kind: "comparison".into(),
        local_id: 7,
    };
    AuditionTarget {
        entity: entity.clone(),
        extent: AspectGeometryDto {
            regions: vec![region(0, 10)],
            objects: Vec::new(),
            signal: SignalLayerDto::Residual { reference: entity },
        },
    }
}

fn request(request_id: &str, operation: HeadlessOperation) -> HeadlessRequest {
    HeadlessRequest {
        protocol: HEADLESS_PROTOCOL.into(),
        request_id: request_id.into(),
        operation,
    }
}

fn answered(step: HeadlessStep) -> HeadlessDispatch {
    match step {
        HeadlessStep::Answered(dispatch) => dispatch,
        HeadlessStep::Encode(_) => panic!("nothing is left to encode"),
    }
}

fn human() -> ProvenanceDto {
    ProvenanceDto {
        producer: ProducerDto::Human { name: None },
        created_unix_ms: None,
        source_revision: None,
        note: None,
    }
}

#[test]
fn jsonl_is_one_line_strict_and_render_is_only_a_typed_effect() {
    let render = || {
        request(
            "render-1",
            HeadlessOperation::Render { target: target() },
        )
    };
    let line = format!("{{\"protocol\":\"{HEADLESS_PROTOCOL}\",\"operation\":\"render\"}}");
    let adapter = HeadlessSessionAdapter::new(HostAnswer::Nothing);
    let dispatch = answered(adapter.dispatch_jsonl(&line, Ok(render())).unwrap());
    assert!(matches!(dispatch, HeadlessDispatch::Render { .. }));
    let response = dispatch.response().to_jsonl(Ok("{}".into())).unwrap();
    assert!(response.ends_with('\n'));
    assert_eq!(response.matches('\n').count(), 1);
    assert!(HeadlessRequest::from_jsonl(&(line.clone() + "\n"), Ok(render())).is_err());

    let unknown = format!("{{\"surprise\":true,{}", &line[1..]);
    assert!(
        HeadlessRequest::from_jsonl(&unknown, Err("unknown field `surprise`".into())).is_err()
    );
}

#[test]
fn command_request_decodes_to_envelope_without_applying_project_state() {
    let batch = CommandBatch {
        label: "import possibility".into(),
        coalesce: None,
        commands: vec![DomainCommand::PutHypothesis {
            before: None,
            after: Some(Hypothesis {
                id: HypothesisId(9),
                label: "foreign possibility".into(),
                claims: Vec::new(),
                support_bits: 0.4_f32.to_bits(),
                evidence: Vec::new(),
                provenance: human(),
            }),
        }],
        id_claims: vec![IdClaim::Hypothesis(HypothesisId(9))],
    };
    let adapter = HeadlessSessionAdapter::new(HostAnswer::Batch(Ok(batch)));
    let step = adapter
        .dispatch(request(
            "command-1",
            HeadlessOperation::Command {
                base_revision: 12,
                batch: DurableCommandBatch { text: "[]".into() },
            },
        ))
        .unwrap();
    let HeadlessStep::Encode(planned) = step else {
        panic!("the host writes the canonical batch")
    };
    let dispatch = planned
        .finish(Ok(DurableCommandBatch { text: "[]".into() }))
        .unwrap();
    let HeadlessDispatch::Command { envelope, .. } = dispatch else {
        panic!("command requests must return only a command effect")
    };
    assert_eq!(envelope.base_revision, 12);
    assert_eq!(envelope.commands.len(), 1);
}

#[test]
fn requests_are_framed_named_and_of_one_protocol() {
    let render = |protocol: &str, id: &str| HeadlessRequest {
        protocol: protocol.into(),
        request_id: id.into(),
        operation: HeadlessOperation::Render { target: target() },
    };
    assert!(matches!(
        HeadlessRequest::from_jsonl("{}\r", Ok(render(HEADLESS_PROTOCOL, "a"))),
        Err(HeadlessProtocolError::Framing(_))
    ));
    assert!(matches!(
        HeadlessRequest::from_jsonl("{}\n{}", Ok(render(HEADLESS_PROTOCOL, "a"))),
        Err(HeadlessProtocolError::Framing(_))
    ));
    assert_eq!(
        HeadlessRequest::from_jsonl("{}", Err("missing field".into())).err(),
        Some(HeadlessProtocolError::Json("missing field".into()))
    );
    let dispatch = |request: HeadlessRequest| {
        HeadlessSessionAdapter::new(HostAnswer::Nothing)
            .dispatch(request)
            .err()
    };
    assert_eq!(
        dispatch(render("audec-v0", "a")),
        Some(HeadlessProtocolError::UnsupportedProtocol(
            "audec-v0".into()
        ))
    );
    assert_eq!(
        dispatch(render(HEADLESS_PROTOCOL, " ")),
        Some(HeadlessProtocolError::InvalidRequest(
            RequestRefusal::BlankRequestId
        ))
    );
}

#[test]
fn batches_must_decode_and_hold_commands() {
    let command = |answer: Result<CommandBatch, String>| {
        HeadlessSessionAdapter::new(HostAnswer::Batch(answer))
            .dispatch(request(
                "command-2",
                HeadlessOperation::Command {
                    base_revision: 1,
                    batch: DurableCommandBatch { text: "[]".into() },
                },
            ))
            .err()
    };
    assert_eq!(
        command(Err("not a batch".into())),
        Some(HeadlessProtocolError::Codec("not a batch".into()))
    );
    assert_eq!(
        command(Ok(CommandBatch {
            label: "empty".into(),
            coalesce: None,
            commands: Vec::new(),
            id_claims: Vec::new(),
        })),
        Some(HeadlessProtocolError::Command(CommandRefusal::EmptyBatch))
    );
}

fn provenance() -> QueryExecutionProvenance {
    QueryExecutionProvenance {
        fact_base_revision: 3,
        fact_base_digest: digest(3),
        source_revision: None,
        executed_unix_ms: None,
    }
}

fn objects() -> QueryDocument {
    QueryDocument::new(
        QueryDocumentId(4),
        "objects".into(),
        QueryTermDto::Kind {
            kind: FactKindDto::Object,
        },
    )
}

fn run(objects: u64) -> HostAnswer {
    HostAnswer::Query {
        content_address: Ok(digest(8)),
        run: QueryRun {
            cancelled: false,
            rows: Ok((1..=objects)
                .map(|id| QueryRow {
                    fact: FactRef::Object(id),
                    rule: "fact".into(),
                    premises: Vec::new(),
                    evidence: Vec::new(),
                    extent: Some(AspectGeometryDto {
                        regions: vec![region(0, 10)],
                        objects: Vec::new(),
                        signal: SignalLayerDto::Source,
                    }),
                })
                .collect()),
            cancelled_after: None,
        },
    }
}

#[test]
fn query_pages_come_back_in_their_document() {
    let dispatch = answered(
        HeadlessSessionAdapter::new(run(2))
            .dispatch(request(
                "page-1",
                HeadlessOperation::QueryPage {
                    document: objects(),
                    provenance: provenance(),
                    page: QueryPageRequest {
                        limit: 1,
                        cursor: None,
                    },
                },
            ))
            .unwrap(),
    );
    assert_eq!(dispatch.response().request_id, "page-1");
    assert_eq!(dispatch.response().protocol, HEADLESS_PROTOCOL);
    let HeadlessResponseBody::QueryPage { document } = &dispatch.response().body else {
        panic!("a query is answered with its document")
    };
    assert_eq!(document.results.len(), 1);
    assert!(document.results[0].page.next_cursor.is_some());
}

fn decoded(id_byte: u8, label: &str) -> DecodedReading {
    DecodedReading {
        reading: ReadingFile {
            format: READING_FORMAT.into(),
            version: READING_FORMAT_VERSION,
            reading_id: ReadingId::new([id_byte; 16]).unwrap(),
            revision: 1,
            parents: Vec::new(),
            author: human(),
            source: ReadingSource {
                fingerprints: vec![digest(4)],
                sample_rate: 48_000,
                channels: 1,
                frame_count: 100,
                declared_title: None,
                extensions: Vec::new(),
            },
            sections: vec![ReadingSection {
                name: ENTITY_SECTION_NAME.into(),
                schema_major: ENTITY_SECTION_MAJOR,
                schema_minor: 0,
                payload: JsonPayload::parse("{}").unwrap(),
                extensions: Vec::new(),
            }],
            attachments: Vec::new(),
            extensions: Vec::new(),
        },
        entities: Ok(vec![PortableEntityRecord {
            kind: "hypothesis".into(),
            local_id: 1,
            label: label.into(),
            role: PortableEntityRole::Hypothesis,
            hypothesis: Some(PortableHypothesisSemantics {
                support_bits: 0.5_f32.to_bits(),
                description: None,
            }),
            hypothesis_group: Some("pulse".into()),
            extent: Some(AspectGeometryDto {
                regions: vec![region(0, 20)],
                objects: Vec::new(),
                signal: SignalLayerDto::Source,
            }),
            extensions: Vec::new(),
        }]),
    }
}

fn local(byte: u8) -> LocalSourceDto {
    LocalSourceDto {
        digest: digest(byte),
        sample_rate: 48_000,
        channels: 1,
        frame_count: 100,
    }
}

#[test]
fn readings_are_verified_against_the_local_source() {
    let verify = |source: Option<LocalSourceDto>| {
        HeadlessSessionAdapter::new(HostAnswer::Nothing).dispatch(request(
            "verify-1",
            HeadlessOperation::VerifyReading {
                reading: Arc::new(decoded(1, "a")),
                local_source: source,
            },
        ))
    };
    let matched = answered(verify(Some(local(4))).unwrap());
    assert!(matches!(
        matched.response().body,
        HeadlessResponseBody::ReadingVerified {
            tier: VerificationTierDto::SourceMatched
        }
    ));
    assert!(matches!(
        verify(Some(local(5))),
        Err(HeadlessProtocolError::Reading(ReadingRefusal::Source(_)))
    ));
    assert_eq!(
        LocalSourceDescriptor::from(local(4)).digest,
        digest(4)
    );
    assert_eq!(
        VerificationTierDto::from(VerificationTier::Replicated),
        VerificationTierDto::Replicated
    );
}

#[test]
fn hypothesis_imports_are_planned_then_encoded() {
    let import = |readings: Vec<ReadingInputDto>, ids: Vec<u64>| {
        let allocations: Vec<ForeignHypothesisAllocationDto> = ids
            .iter()
            .enumerate()
            .map(|(index, id)| ForeignHypothesisAllocationDto {
                foreign: QualifiedEntityId::new(
                    ReadingId::new([index as u8 + 1; 16]).unwrap(),
                    "hypothesis".into(),
                    1,
                )
                .unwrap(),
                project_id: *id,
            })
            .collect();
        HeadlessSessionAdapter::new(HostAnswer::Nothing).dispatch(request(
            "import-1",
            HeadlessOperation::ImportHypotheses {
                readings: Arc::new(readings),
                existing: Arc::new(Vec::new()),
                unknown_sections: UnknownSectionPolicy::PreserveOpaque,
                base_revision: 9,
                hypothesis_allocations: Arc::new(allocations),
                set_allocations: Arc::new(vec![HypothesisSetAllocationDto {
                    group: "pulse".into(),
                    project_id: 201,
                }]),
            },
        ))
    };
    assert!(matches!(
        import(Vec::new(), Vec::new()),
        Err(HeadlessProtocolError::InvalidRequest(
            RequestRefusal::NoReadings
        ))
    ));
    let inputs = vec![
        ReadingInputDto {
            reading: Arc::new(decoded(1, "a")),
            local_source: None,
        },
        ReadingInputDto {
            reading: Arc::new(decoded(2, "b")),
            local_source: None,
        },
    ];
    let HeadlessStep::Encode(planned) = import(inputs, vec![101, 102]).unwrap() else {
        panic!("a planned import is encoded by the host")
    };
    assert_eq!(planned.planned.mappings.len(), 2);
    let dispatch = planned
        .finish(Ok(DurableCommandBatch {
            text: "encoded".into(),
        }))
        .unwrap();
    let HeadlessDispatch::Command { envelope, response } = dispatch else {
        panic!("an import is a command")
    };
    assert_eq!(envelope.base_revision, 9);
    let HeadlessResponseBody::CommandPlanned {
        base_revision,
        batch,
        mappings,
        ..
    } = &response.body
    else {
        panic!("the answer shows the planned command")
    };
    assert_eq!((*base_revision, batch.text.as_str()), (9, "encoded"));
    assert_eq!(mappings[0].project_id, 101);
}

#[test]
fn pane_notice_never_conflates_planned_command_with_success() {
    let notice = ReadingQueryPaneNotice::CommandAwaitingExecutor(
        "aggregate executor has not replied".into(),
    );
    let (label, _) = notice.label();
    assert_eq!(label, "COMMAND PLANNED");
    assert!(notice.detail(&HostWords::none()).contains("not replied"));
}

fn observation(effect: Option<ReadingQueryViewEffect>) -> HeadlessRequest {
    match effect {
        Some(ReadingQueryViewEffect::Observation(request)) => request,
        _ => panic!("the pane asks for an observation"),
    }
}

fn ready_pane() -> ReadingQueryView {
    let mut pane = ReadingQueryView::new(objects()).unwrap();
    pane.observe_inputs(ReadingQueryViewInputs {
        query_provenance: Some(provenance()),
        ..ReadingQueryViewInputs::default()
    });
    pane
}

#[test]
fn a_pane_asks_for_one_page_at_a_time() {
    let mut pane = ReadingQueryView::new(objects()).unwrap();
    assert!(pane.run_first_page().is_none());
    assert!(matches!(
        pane.notice(),
        ReadingQueryPaneNotice::MissingSource(_)
    ));

    let mut pane = ready_pane();
    let asked = observation(pane.run_first_page());
    let id = asked.request_id.clone();
    assert!(matches!(
        pane.notice(),
        ReadingQueryPaneNotice::Pending { operation: ReadingQueryOperation::QueryFirstPage, request_id }
            if *request_id == id
    ));
    assert!(pane.run_first_page().is_none());

    let dispatch = answered(
        HeadlessSessionAdapter::new(run(2))
            .dispatch(asked)
            .unwrap(),
    );
    let Some(ReadingQueryViewEffect::DocumentChanged(changed)) = pane.accept_dispatch(dispatch)
    else {
        panic!("a page changes the document")
    };
    assert_eq!(changed.reason, QueryDocumentChangeReason::QueryPageObserved);
    assert_eq!(pane.presentation().result_rows, 2);
}

#[test]
fn a_cancelled_pane_ignores_the_late_answer() {
    let mut pane = ready_pane();
    let asked = observation(pane.run_first_page());
    let id = asked.request_id.clone();
    assert_eq!(
        pane.cancel(),
        Some(ReadingQueryViewEffect::CancelObservation(id.clone()))
    );
    assert!(pane.cancel().is_none());
    let late = answered(
        HeadlessSessionAdapter::new(run(1))
            .dispatch(asked)
            .unwrap(),
    );
    assert!(pane.accept_dispatch(late).is_none());
    assert_eq!(pane.presentation().result_rows, 0);
    assert!(!pane.complete_external_failure(&id, "too late".into()));
}

#[test]
fn panes_select_reveal_and_audition_rows() {
    let mut pane = ready_pane();
    let asked = observation(pane.run_first_page());
    let page = answered(
        HeadlessSessionAdapter::new(run(2))
            .dispatch(asked)
            .unwrap(),
    );
    pane.accept_dispatch(page);
    pane.select_result_row(0);
    pane.select_relative_row(1);
    assert_eq!(pane.presentation().selected_row, Some(1));
    let Some(ReadingQueryViewEffect::Reveal(reveal)) = pane.request_reveal() else {
        panic!("a selected row can be revealed")
    };
    assert_eq!(
        reveal.entity,
        EntityRefDto::Project {
            kind: "air-object".into(),
            local_id: 2,
        }
    );
    assert!(matches!(
        pane.request_audition(),
        Some(ReadingQueryViewEffect::Render(_))
    ));
    pane.select_result_row(9);
    assert!(matches!(
        pane.notice(),
        ReadingQueryPaneNotice::Refused(PaneRefusal::Row(_))
    ));
}

#[test]
fn panes_preview_readings_and_guide_residuals() {
    let mut pane = ReadingQueryView::new(objects()).unwrap();
    pane.observe_inputs(ReadingQueryViewInputs {
        query_provenance: Some(provenance()),
        readings: Arc::new(vec![
            ReadingInputDto {
                reading: Arc::new(decoded(1, "a")),
                local_source: None,
            },
            ReadingInputDto {
                reading: Arc::new(decoded(2, "b")),
                local_source: None,
            },
        ]),
        ..ReadingQueryViewInputs::default()
    });
    assert_eq!(pane.presentation().reading_count, 2);
    pane.select_reading(1);
    assert_eq!(pane.presentation().selected_reading, Some(1));
    pane.preview_reading_merge();
    assert_eq!(pane.presentation().merged_hypotheses, 1);
    pane.preview_reading_diff();
    assert!(pane.presentation().has_diff);

    let Some(ReadingQueryViewEffect::DocumentChanged(changed)) = pane.install_residual_guide(
        QueryDocumentId(5),
        "gaps".into(),
        &vec![region(0, 4), region(6, 8)],
        11,
        12,
    ) else {
        panic!("a guide is a new document")
    };
    assert_eq!(
        changed.reason,
        QueryDocumentChangeReason::ResidualGuideInstalled
    );
    assert_eq!(pane.presentation().residual_targets, 2);
    assert!(matches!(
        pane.request_residual_audition(1),
        Some(ReadingQueryViewEffect::Render(target))
            if target.extent.regions == vec![region(6, 8)]
    ));
    assert!(pane.request_residual_audition(2).is_none());
}

#[test]
fn panes_open_only_from_their_own_descriptors() {
    let descriptor = |name: &str, state: bool| ViewDescriptor {
        kind: ViewKind::Extension {
            namespace: WORKBENCH_NAMESPACE.into(),
            name: name.into(),
        },
        extension_state: state,
        title_override: None,
    };
    let (title, pane) = ReadingQueryViewFactory.create_pane(&descriptor(WORKBENCH_VIEW_NAME, true), Ok(objects())).unwrap();
    assert_eq!(title, "objects");
    assert_eq!(pane.presentation().query_label, "kind:object");
    assert!(ReadingQueryViewFactory.create_pane(&descriptor("mixer", true), Ok(objects())).is_err());
    assert!(ReadingQueryViewFactory.create_pane(&descriptor(WORKBENCH_VIEW_NAME, false), Ok(objects())).is_err());
    assert!(ReadingQueryViewFactory.create_pane(
        &descriptor(WORKBENCH_VIEW_NAME, true),
        Err("not a document".into())
    )
    .is_err());
    assert_eq!(short_digest(&[0xab; 32]), "abababababab");
}

#[test]
fn panels_show_what_the_pane_holds() {
    let mut pane = ReadingQueryView::new(objects()).unwrap();
    let header = pane.header_panel(&HostWords::none());
    assert_eq!(header.title, "objects");
    assert_eq!(
        header.document,
        format!(
            "document {} · revision {} · 0 pages",
            objects().id.0,
            objects().revision
        )
    );
    assert_eq!((header.status, header.color), ("EMPTY", 0x596579));
    assert_eq!(header.detail, "The query has no executed result page");
    assert!(pane.results_panel().is_empty());
    assert!(pane.provenance_panel().is_empty());
    assert_eq!(pane.residual_panel(), ResidualPanel::NoField);

    pane.wrap_selected(QueryWrapOperator::Not);
    pane.select_query_term(vec![0]);
    let builder = pane.query_builder_panel();
    assert_eq!(
        builder.hint,
        "Draft changed · next run creates a new query-document revision"
    );
    let rows: Vec<(&str, usize, &str, bool)> = builder
        .rows
        .iter()
        .map(|row| (row.id.as_str(), row.depth, row.label.as_str(), row.selected))
        .collect();
    assert_eq!(
        rows,
        vec![
            ("reading-query-term-root", 0, "not(kind:object)", false),
            ("reading-query-term-0", 1, "kind:object", true),
        ]
    );
}

#[test]
fn result_panels_follow_the_newest_page() {
    let mut pane = ready_pane();
    let asked = observation(pane.run_first_page());
    let page = answered(
        HeadlessSessionAdapter::new(run(2))
            .dispatch(asked)
            .unwrap(),
    );
    pane.accept_dispatch(page);
    pane.select_result_row(1);
    let rows = pane.results_panel();
    assert_eq!(rows.len(), 2);
    assert!(!rows[0].selected && rows[1].selected);
    assert_eq!(
        rows[1].fact,
        EntityRefDto::Project {
            kind: "air-object".into(),
            local_id: 2,
        }
    );
    assert!(rows[0].detail.starts_with("rule "));
    assert!(rows[0].detail.ends_with(" regions"));
    let history = pane.provenance_panel();
    assert_eq!(history.len(), 1);
    assert!(history[0].line.ends_with(" · offset 0 · 2 hits"));

    pane.observe_inputs(ReadingQueryViewInputs {
        query_provenance: Some(provenance()),
        readings: Arc::new(vec![
            ReadingInputDto {
                reading: Arc::new(decoded(1, "a")),
                local_source: Some(local(4)),
            },
            ReadingInputDto {
                reading: Arc::new(decoded(2, "b")),
                local_source: None,
            },
        ]),
        ..ReadingQueryViewInputs::default()
    });
    pane.select_reading(1);
    let readings = pane.readings_panel();
    assert_eq!(
        readings.rows[0].title,
        format!("{} · revision 1", "01".repeat(16))
    );
    assert_eq!(readings.rows[0].source, "local source supplied");
    assert_eq!(
        readings.rows[1].source,
        "source absent · graph-only until matched"
    );
    assert!(readings.rows[1].selected && !readings.rows[0].selected);
    assert_eq!((readings.diff, readings.merge), (None, None));
    pane.preview_reading_merge();
    assert_eq!(
        pane.readings_panel().merge,
        Some(
            "2 readings · 2 entities · 1 coexisting hypothesis groups · no winner selected".into()
        )
    );
    pane.preview_reading_diff();
    let diff = pane.readings_panel().diff.unwrap();
    assert!(diff.starts_with("diff "));
    assert!(diff.contains(" · source changed "));
    pane.install_residual_guide(
        QueryDocumentId(5),
        "gaps".into(),
        &vec![region(0, 4), region(6, 8)],
        11,
        12,
    );
    assert_eq!(
        pane.residual_panel(),
        ResidualPanel::Hotspots(vec![
            "AUDITION HOTSPOT 1 · 1 REGION".into(),
            "AUDITION HOTSPOT 2 · 1 REGION".into(),
        ])
    );
}

#[test]
fn notices_have_a_text_for_every_refusal() {
    let none = HostWords::none();
    let refused = |refusal: PaneRefusal| ReadingQueryPaneNotice::Refused(refusal);
    let mut pane = ReadingQueryView::new(objects()).unwrap();
    pane.select_result_row(7);
    assert_eq!(pane.notice().detail(&none), "UnknownRow(7)");
    pane.select_query_term(vec![4, 2]);
    assert_eq!(
        pane.notice().detail(&none),
        "query builder: UnknownPath([4, 2])"
    );
    pane.accept_refusal(
        "late-1",
        HeadlessProtocolError::Workbench(WorkbenchError::StaleCursor),
    );
    assert_eq!(
        pane.notice().detail(&none),
        "unknown or late refusal late-1: headless reading/query protocol error: \
         Workbench(StaleCursor)"
    );
    let id = QualifiedEntityId::new(ReadingId::new([3; 16]).unwrap(), "hypothesis".into(), 8);
    assert_eq!(
        refused(PaneRefusal::UnknownPlannedEntity(id.unwrap())).detail(&none),
        "unknown planned reading entity QualifiedEntityId { reading: ReadingId([3, 3, 3, 3, 3, 3, \
         3, 3, 3, 3, 3, 3, 3, 3, 3, 3]), kind: \"hypothesis\", local_id: 8 }"
    );
    let narrow = region(4, 4);
    let notice = refused(PaneRefusal::Workbench(WorkbenchError::InvalidRegion(narrow)));
    assert_eq!(notice.region(), Some(narrow));
    assert_eq!(
        notice.detail(&HostWords {
            region: "4..4".into(),
            ..HostWords::none()
        }),
        "reading/query workbench error: InvalidRegion(4..4)"
    );
    assert_eq!(
        HeadlessProtocolError::Json("bad \"line\"".into()).message(&none),
        "headless reading/query protocol error: Json(\"bad \\\"line\\\"\")"
    );
}
