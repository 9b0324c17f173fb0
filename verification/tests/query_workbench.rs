use audec::cursor::{decode_cursor, encode_cursor};
use audec::json::JsonPayload;
use audec::navigation::{
    AspectGeometryDto, EntityRefDto, QueryDerivationDto, QueryHitDto, QueryResultPageDto,
    RegionDto, SignalLayerDto,
};
use audec::query_builder::{
    flatten_terms, path_label, QueryBuilderRefusal, QueryBuilderState, QueryWrapOperator,
};
use audec::query_document::{
    query_content_address, EditorTarget, ViewKind,
    execute_query_document, execute_query_page, residual_guide, validate_result_page, FactRef,
    QueryCancellationToken, QueryDocument, QueryDocumentId, QueryExecutionProvenance,
    QueryPageRequest, QueryResultSnapshot, QueryRow, QueryRun, WorkbenchActionRefusal, WorkbenchPaneFactory,
    QUERY_DOCUMENT_FORMAT, WORKBENCH_NAMESPACE, WORKBENCH_VIEW_NAME,
};
use audec::query_terms::{validate_geometry, Aspect, FactKindDto, Query, QueryTermDto};
use audec::reading::{
    PortableDigest, PortableDigestAlgorithm, QualifiedEntityId, ReadingId,
};
use audec::workbench_error::{QueryError, WorkbenchError};
use serde_json::Value;

fn digest(byte: u8) -> PortableDigest {
    PortableDigest {
        algorithm: PortableDigestAlgorithm::Sha256,
        bytes: [byte; 32],
    }
}

fn geometry(start: i64, end: i64) -> AspectGeometryDto {
    AspectGeometryDto {
        regions: vec![RegionDto {
            start_frame: start,
            end_frame: end,
            min_hz_bits: 0.0_f32.to_bits(),
            max_hz_bits: 24_000.0_f32.to_bits(),
            channels: 1,
        }],
        objects: Vec::new(),
        signal: SignalLayerDto::Source,
    }
}

/// Facts over frames, and the frames that no explanation covers.
struct Facts {
    extents: Vec<(FactRef, (i64, i64))>,
    evidence: Vec<(FactRef, FactRef)>,
    residual: (i64, i64),
}

fn facts() -> Facts {
    let object_1 = FactRef::Object(1);
    let object_2 = FactRef::Object(2);
    let hypothesis = FactRef::Hypothesis(9);
    Facts {
        extents: vec![
            (object_1, (0, 20)),
            (object_2, (60, 80)),
            (hypothesis, (0, 80)),
        ],
        evidence: vec![(object_1, hypothesis)],
        residual: (50, 100),
    }
}

fn overlaps(left: (i64, i64), right: (i64, i64)) -> bool {
    left.0 < right.1 && right.0 < left.1
}

fn holds(facts: &Facts, query: &Query, fact: FactRef, extent: (i64, i64)) -> bool {
    match query {
        Query::Kind(FactKindDto::Object) => matches!(fact, FactRef::Object(_)),
        Query::Kind(FactKindDto::Hypothesis) => matches!(fact, FactRef::Hypothesis(_)),
        Query::Kind(_) => false,
        Query::Within(aspect) => covers(aspect, extent),
        Query::NotExplainedBy(_) => overlaps(extent, facts.residual),
        Query::And(terms) => terms.iter().all(|term| holds(facts, term, fact, extent)),
        Query::Or(terms) => terms.iter().any(|term| holds(facts, term, fact, extent)),
        Query::Not(term) => !holds(facts, term, fact, extent),
        Query::Related { .. } => false,
    }
}

fn covers(aspect: &Aspect, extent: (i64, i64)) -> bool {
    match aspect {
        Aspect::Time {
            start_frame,
            end_frame,
        } => overlaps(extent, (*start_frame, *end_frame)),
        Aspect::Union(list) => list.iter().any(|aspect| covers(aspect, extent)),
        Aspect::Intersect(list) => list.iter().all(|aspect| covers(aspect, extent)),
        _ => true,
    }
}

fn rows(facts: &Facts, document: &QueryDocument) -> Vec<QueryRow> {
    let query = document.query.compile().unwrap();
    let rule = match query {
        Query::And(_) => "and",
        _ => "fact",
    };
    facts
        .extents
        .iter()
        .filter(|(fact, extent)| holds(facts, &query, *fact, *extent))
        .map(|(fact, extent)| QueryRow {
            fact: *fact,
            rule: rule.into(),
            premises: vec![*fact],
            evidence: facts
                .evidence
                .iter()
                .filter(|(of, _)| of == fact)
                .map(|(_, by)| *by)
                .collect(),
            extent: Some(geometry(extent.0, extent.1)),
        })
        .collect()
}

fn complete(rows: Vec<QueryRow>) -> QueryRun {
    QueryRun {
        cancelled: false,
        rows: Ok(rows),
        cancelled_after: None,
    }
}

fn provenance(byte: u8, source: Option<&str>) -> QueryExecutionProvenance {
    QueryExecutionProvenance {
        fact_base_revision: u64::from(byte),
        fact_base_digest: digest(byte),
        source_revision: source.map(|text| text.to_string()),
        executed_unix_ms: None,
    }
}

fn objects(id: u64) -> QueryDocument {
    QueryDocument::new(
        QueryDocumentId(id),
        "objects".into(),
        QueryTermDto::Kind {
            kind: FactKindDto::Object,
        },
    )
}

fn object<const N: usize>(members: [(&str, Value); N]) -> Value {
    Value::Object(
        members
            .into_iter()
            .map(|(name, value)| (name.to_string(), value))
            .collect(),
    )
}

fn list<T>(items: &[T], write: impl Fn(&T) -> Value) -> Value {
    Value::Array(items.iter().map(write).collect())
}

fn write_digest(digest: &PortableDigest) -> Value {
    assert_eq!(digest.algorithm, PortableDigestAlgorithm::Sha256);
    list(&digest.bytes, |byte| Value::from(*byte))
}

fn write_geometry(geometry: &AspectGeometryDto) -> Value {
    assert_eq!(geometry.signal, SignalLayerDto::Source);
    object([
        (
            "regions",
            list(&geometry.regions, |region| {
                object([
                    ("start_frame", region.start_frame.into()),
                    ("end_frame", region.end_frame.into()),
                    ("min_hz", f32::from_bits(region.min_hz_bits).into()),
                    ("max_hz", f32::from_bits(region.max_hz_bits).into()),
                    ("channels", region.channels.into()),
                ])
            }),
        ),
        ("objects", list(&geometry.objects, write_entity)),
    ])
}

fn write_entity(entity: &EntityRefDto) -> Value {
    match entity {
        EntityRefDto::Project { kind, local_id } => object([
            ("kind", kind.clone().into()),
            ("local_id", (*local_id).into()),
        ]),
        EntityRefDto::Reading(_) => panic!("no reading is named here"),
    }
}

fn write_term(term: &QueryTermDto) -> Value {
    match term {
        QueryTermDto::Kind {
            kind: FactKindDto::Object,
        } => object([("operator", "kind".into()), ("kind", "object".into())]),
        QueryTermDto::Within { aspect } => object([
            ("operator", "within".into()),
            ("aspect", write_geometry(aspect)),
        ]),
        QueryTermDto::And { terms } => object([
            ("operator", "and".into()),
            ("terms", list(terms, write_term)),
        ]),
        _ => panic!("no such term is used here"),
    }
}

fn write_result(result: &QueryResultSnapshot) -> Value {
    object([
        ("document_revision", result.document_revision.into()),
        ("content_address", write_digest(&result.content_address)),
        ("page_start", result.page_start.into()),
        (
            "provenance",
            object([
                (
                    "fact_base_revision",
                    result.provenance.fact_base_revision.into(),
                ),
                (
                    "fact_base_digest",
                    write_digest(&result.provenance.fact_base_digest),
                ),
                (
                    "source_revision",
                    result.provenance.source_revision.clone().into(),
                ),
                (
                    "executed_unix_ms",
                    result.provenance.executed_unix_ms.into(),
                ),
            ]),
        ),
        (
            "page",
            object([
                ("query_term", result.page.query_term.clone().into()),
                ("result_revision", result.page.result_revision.into()),
                (
                    "hits",
                    list(&result.page.hits, |hit| {
                        object([
                            ("fact", write_entity(&hit.fact)),
                            (
                                "extent",
                                hit.extent.as_ref().map_or(Value::Null, write_geometry),
                            ),
                            ("rule", hit.derivation.rule.clone().into()),
                            ("premises", list(&hit.derivation.premises, write_entity)),
                        ])
                    }),
                ),
                ("next_cursor", result.page.next_cursor.clone().into()),
            ]),
        ),
    ])
}

/// A document as JSON.
fn written(document: &QueryDocument) -> String {
    assert!(document.extensions.is_empty());
    object([
        ("format", document.format.clone().into()),
        ("version", document.version.into()),
        ("id", document.id.0.into()),
        ("revision", document.revision.into()),
        ("title", document.title.clone().into()),
        ("query", write_term(&document.query)),
        ("results", list(&document.results, write_result)),
    ])
    .to_string()
}

fn read_text(value: &Value) -> Option<String> {
    value.as_str().map(|text| text.to_string())
}

fn read_list<T>(value: &Value, read: impl Fn(&Value) -> Option<T>) -> Option<Vec<T>> {
    value.as_array()?.iter().map(read).collect()
}

fn read_digest(value: &Value) -> Option<PortableDigest> {
    let bytes = read_list(value, |byte| byte.as_u64().map(|byte| byte as u8))?;
    Some(PortableDigest {
        algorithm: PortableDigestAlgorithm::Sha256,
        bytes: bytes.try_into().ok()?,
    })
}

fn read_geometry(value: &Value) -> Option<AspectGeometryDto> {
    Some(AspectGeometryDto {
        regions: read_list(&value["regions"], |region| {
            Some(RegionDto {
                start_frame: region["start_frame"].as_i64()?,
                end_frame: region["end_frame"].as_i64()?,
                min_hz_bits: (region["min_hz"].as_f64()? as f32).to_bits(),
                max_hz_bits: (region["max_hz"].as_f64()? as f32).to_bits(),
                channels: region["channels"].as_u64()? as u16,
            })
        })?,
        objects: read_list(&value["objects"], read_entity)?,
        signal: SignalLayerDto::Source,
    })
}

fn read_entity(value: &Value) -> Option<EntityRefDto> {
    Some(EntityRefDto::Project {
        kind: read_text(&value["kind"])?,
        local_id: value["local_id"].as_u64()?,
    })
}

fn read_term(value: &Value) -> Option<QueryTermDto> {
    match value["operator"].as_str()? {
        "kind" => Some(QueryTermDto::Kind {
            kind: FactKindDto::Object,
        }),
        "within" => Some(QueryTermDto::Within {
            aspect: read_geometry(&value["aspect"])?,
        }),
        "and" => Some(QueryTermDto::And {
            terms: read_list(&value["terms"], read_term)?,
        }),
        _ => None,
    }
}

fn read_result(value: &Value) -> Option<QueryResultSnapshot> {
    let provenance = &value["provenance"];
    let page = &value["page"];
    Some(QueryResultSnapshot {
        document_revision: value["document_revision"].as_u64()?,
        content_address: read_digest(&value["content_address"])?,
        page_start: value["page_start"].as_u64()?,
        provenance: QueryExecutionProvenance {
            fact_base_revision: provenance["fact_base_revision"].as_u64()?,
            fact_base_digest: read_digest(&provenance["fact_base_digest"])?,
            source_revision: read_text(&provenance["source_revision"]),
            executed_unix_ms: provenance["executed_unix_ms"].as_u64(),
        },
        page: QueryResultPageDto {
            query_term: read_text(&page["query_term"])?,
            result_revision: page["result_revision"].as_u64()?,
            hits: read_list(&page["hits"], |hit| {
                Some(QueryHitDto {
                    fact: read_entity(&hit["fact"])?,
                    extent: match &hit["extent"] {
                        Value::Null => None,
                        extent => Some(read_geometry(extent)?),
                    },
                    derivation: QueryDerivationDto {
                        rule: read_text(&hit["rule"])?,
                        premises: read_list(&hit["premises"], read_entity)?,
                    },
                })
            })?,
            next_cursor: read_text(&page["next_cursor"]),
        },
    })
}

fn read_document(value: &Value) -> Option<QueryDocument> {
    Some(QueryDocument {
        format: read_text(&value["format"])?,
        version: value["version"].as_u64()? as u32,
        id: QueryDocumentId(value["id"].as_u64()?),
        revision: value["revision"].as_u64()?,
        title: read_text(&value["title"])?,
        query: read_term(&value["query"])?,
        results: read_list(&value["results"], read_result)?,
        extensions: Vec::new(),
    })
}

/// The document that a text holds.
fn read(text: &str) -> Result<QueryDocument, String> {
    let value: Value = serde_json::from_str(text).map_err(|error| error.to_string())?;
    read_document(&value).ok_or("no query document".to_string())
}

#[test]
fn query_document_executes_deterministically_and_persists_derivation_provenance() {
    let facts = facts();
    let mut document = QueryDocument::new(
        QueryDocumentId(4),
        "early objects".into(),
        QueryTermDto::And {
            terms: vec![
                QueryTermDto::Kind {
                    kind: FactKindDto::Object,
                },
                QueryTermDto::Within {
                    aspect: geometry(0, 30),
                },
            ],
        },
    );
    let found = rows(&facts, &document);
    let snapshot = execute_query_document(
        &mut document,
        provenance(7, Some("project:abc")),
        Ok(digest(70)),
        Ok(found),
    )
    .unwrap();
    assert_eq!(snapshot.page.hits.len(), 1);
    assert_eq!(snapshot.page.hits[0].derivation.rule, "and");
    assert!(snapshot.page.hits[0]
        .derivation
        .premises
        .contains(&EntityRefDto::Project {
            kind: "air-hypothesis".into(),
            local_id: 9,
        }));

    let text = document.to_json(Ok(written(&document))).unwrap();
    assert!(text.ends_with("}\n"));
    let decoded = QueryDocument::from_json(read(&text)).unwrap();
    assert_eq!(decoded, document);
    let descriptor =
        WorkbenchPaneFactory::workspace_view(&decoded, Ok(JsonPayload::parse("{}").unwrap()))
            .unwrap();
    assert_eq!(
        descriptor.kind,
        ViewKind::Extension {
            namespace: WORKBENCH_NAMESPACE.into(),
            name: WORKBENCH_VIEW_NAME.into(),
        }
    );
    assert_eq!(
        descriptor.target,
        EditorTarget::Extension {
            namespace: WORKBENCH_NAMESPACE.into(),
            key: "query-document:4".into(),
        }
    );
    assert_eq!(descriptor.links, None);
    assert!(descriptor.extensions.is_empty());
    let mut model = WorkbenchPaneFactory::model(decoded).unwrap();
    model.select_row(0).unwrap();
    assert!(model.audition_target().is_ok());
    assert_eq!(
        model.reveal_target().unwrap().entity,
        EntityRefDto::Project {
            kind: "air-object".into(),
            local_id: 1,
        }
    );
}

#[test]
fn content_addressed_pages_bind_cursors_and_cancel_atomically() {
    let facts = facts();
    let mut document = objects(41);
    let address = digest(33);
    let found = rows(&facts, &document);
    let first = execute_query_page(
        &mut document,
        provenance(3, Some("air:3")),
        QueryPageRequest {
            limit: 1,
            cursor: None,
        },
        Ok(address),
        complete(found),
    )
    .unwrap();
    assert_eq!(first.content_address, address);
    let cursor = first.page.next_cursor.clone().unwrap();
    assert_eq!(first.page.hits.len(), 1);
    let found = rows(&facts, &document);
    let second = execute_query_page(
        &mut document,
        provenance(3, Some("air:3")),
        QueryPageRequest {
            limit: 1,
            cursor: Some(cursor.clone()),
        },
        Ok(address),
        complete(found),
    )
    .unwrap();
    assert_eq!(second.content_address, address);
    assert_eq!(second.page_start, 1);
    assert!(second.page.next_cursor.is_none());

    let mut stale = objects(42);
    let found = rows(&facts, &stale);
    assert!(matches!(
        execute_query_page(
            &mut stale,
            QueryExecutionProvenance {
                fact_base_digest: digest(4),
                ..provenance(3, Some("air:3"))
            },
            QueryPageRequest {
                limit: 1,
                cursor: Some(cursor),
            },
            Ok(digest(34)),
            complete(found),
        ),
        Err(WorkbenchError::StaleCursor)
    ));

    let cancelled = QueryCancellationToken::default();
    assert!(!cancelled.is_cancelled());
    cancelled.clone().cancel();
    let mut cancelled_document = objects(43);
    let found = rows(&facts, &cancelled_document);
    assert!(matches!(
        execute_query_page(
            &mut cancelled_document,
            provenance(3, Some("air:3")),
            QueryPageRequest::default(),
            Ok(address),
            QueryRun {
                cancelled: cancelled.is_cancelled(),
                ..complete(found)
            },
        ),
        Err(WorkbenchError::Query(QueryError::Cancelled))
    ));
    assert!(cancelled_document.results.is_empty());
}

#[test]
fn residual_query_and_missing_extent_have_typed_refusal_paths() {
    let facts = facts();
    let mut document = QueryDocument::new(
        QueryDocumentId(5),
        "residual".into(),
        QueryTermDto::NotExplainedBy { proposal_id: 3 },
    );
    let found = rows(&facts, &document);
    execute_query_document(&mut document, provenance(8, None), Ok(digest(80)), Ok(found)).unwrap();
    assert_eq!(
        document
            .latest_result()
            .unwrap()
            .page
            .hits
            .iter()
            .map(|hit| hit.fact.clone())
            .collect::<Vec<_>>(),
        vec![
            EntityRefDto::Project {
                kind: "air-object".into(),
                local_id: 2,
            },
            EntityRefDto::Project {
                kind: "air-hypothesis".into(),
                local_id: 9,
            },
        ]
    );

    document.results.last_mut().unwrap().page.hits[0].extent = None;
    let mut model = WorkbenchPaneFactory::model(document).unwrap();
    model.select_row(0).unwrap();
    assert!(matches!(
        model.audition_target(),
        Err(WorkbenchActionRefusal::MissingExtent(_))
    ));
}

#[test]
fn residual_guide_ranks_hotspots_and_keeps_residual_signal_explicit() {
    // The loudest residual cells, as the coverage field at 48_000 frames a second
    // ranks them.
    let hotspots = vec![
        RegionDto {
            start_frame: 0,
            end_frame: 2,
            min_hz_bits: 12_000.0_f32.to_bits(),
            max_hz_bits: 24_000.0_f32.to_bits(),
            channels: 1,
        },
        RegionDto {
            start_frame: 2,
            end_frame: 4,
            min_hz_bits: 0.0_f32.to_bits(),
            max_hz_bits: 12_000.0_f32.to_bits(),
            channels: 1,
        },
    ];
    let guide = residual_guide(QueryDocumentId(8), "gaps".into(), &hotspots, 11, 12).unwrap();
    assert_eq!(guide.auditions.len(), 2);
    assert_eq!(guide.auditions[0].extent.regions[0].start_frame, 0);
    assert!(matches!(
        guide.auditions[0].extent.signal,
        SignalLayerDto::Residual { .. }
    ));
    assert!(matches!(
        guide.query_document.query,
        QueryTermDto::And { .. }
    ));
}

#[test]
fn compile_rejects_reading_qualified_refs_in_a_project_query() {
    let reading_id = ReadingId::new([1; 16]).unwrap();
    let query = QueryTermDto::Within {
        aspect: AspectGeometryDto {
            regions: Vec::new(),
            objects: vec![EntityRefDto::Reading(
                QualifiedEntityId::new(reading_id, "air-object".into(), 1).unwrap(),
            )],
            signal: SignalLayerDto::Source,
        },
    };
    assert!(matches!(
        query.compile(),
        Err(WorkbenchError::QualifiedReferenceInProjectQuery(_))
    ));
}

#[test]
fn queries_that_mean_nothing_are_refused() {
    let unproposed = QueryTermDto::And {
        terms: vec![QueryTermDto::NotExplainedBy { proposal_id: 0 }],
    };
    assert_eq!(
        unproposed.compile().err(),
        Some(WorkbenchError::InvalidQuery(
            "a reconstruction proposal id cannot be zero".into()
        ))
    );
    let mut backwards = geometry(30, 10);
    assert!(matches!(
        validate_geometry(&backwards),
        Err(WorkbenchError::InvalidRegion(_))
    ));
    backwards.regions.clear();
    backwards.objects = vec![EntityRefDto::Project {
        kind: "air-hypothesis".into(),
        local_id: 1,
    }];
    assert_eq!(
        QueryTermDto::Within { aspect: backwards }.compile().err(),
        Some(WorkbenchError::InvalidQuery(
            "Project { kind: \"air-hypothesis\", local_id: 1 } is not an AIR object".into()
        ))
    );
}

#[test]
fn documents_are_validated_before_they_are_shown() {
    let document = objects(0);
    assert!(matches!(
        document.validate(),
        Err(WorkbenchError::InvalidDocument(_))
    ));
    let mut foreign = objects(1);
    foreign.format = "audec-song".into();
    assert_eq!(
        foreign.validate(),
        Err(WorkbenchError::WrongDocumentFormat("audec-song".into()))
    );
    let mut newer = objects(1);
    newer.version += 1;
    assert!(matches!(
        newer.validate(),
        Err(WorkbenchError::UnsupportedDocumentVersion(_))
    ));
    assert_eq!(objects(1).format, QUERY_DOCUMENT_FORMAT);
    let mut document = objects(1);
    let revision = document.revision;
    document
        .replace_query(QueryTermDto::NotExplainedBy { proposal_id: 4 })
        .unwrap();
    assert_eq!(document.revision, revision + 1);
    assert!(document
        .replace_query(QueryTermDto::NotExplainedBy { proposal_id: 0 })
        .is_err());
    assert_eq!(document.revision, revision + 1);
}

#[test]
fn failed_addresses_and_failing_runs_leave_the_document_alone() {
    let mut document = objects(7);
    assert_eq!(
        execute_query_document(
            &mut document,
            provenance(1, None),
            Err("cannot encode".into()),
            Ok(Vec::new())
        ),
        Err(WorkbenchError::Json("cannot encode".into()))
    );
    assert_eq!(
        execute_query_document(
            &mut document,
            provenance(1, None),
            Ok(digest(1)),
            Err(QueryError::UnresolvedAspect)
        ),
        Err(WorkbenchError::Query(QueryError::UnresolvedAspect))
    );
    assert!(matches!(
        execute_query_page(
            &mut document,
            provenance(1, None),
            QueryPageRequest {
                limit: 0,
                cursor: None
            },
            Ok(digest(1)),
            complete(Vec::new())
        ),
        Err(WorkbenchError::InvalidPage(_))
    ));
    assert!(document.results.is_empty());
}

#[test]
fn pages_join_up_and_are_never_taken_twice() {
    let facts = facts();
    let mut document = QueryDocument::new(
        QueryDocumentId(9),
        "all".into(),
        QueryTermDto::Not {
            term: Box::new(QueryTermDto::Kind {
                kind: FactKindDto::Source,
            }),
        },
    );
    let whole: Vec<String> = rows(&facts, &document)
        .iter()
        .map(|row| format!("{:?}", row.fact))
        .collect();
    assert_eq!(whole.len(), 3);
    let mut cursor = None;
    for page in 0..2 {
        let found = rows(&facts, &document);
        execute_query_page(
            &mut document,
            provenance(2, None),
            QueryPageRequest { limit: 2, cursor },
            Ok(digest(5)),
            complete(found),
        )
        .unwrap();
        let result = document.latest_result().unwrap();
        assert_eq!(result.page_start, page * 2);
        cursor = result.page.next_cursor.clone();
    }
    assert!(cursor.is_none());
    let hits: usize = document
        .results
        .iter()
        .map(|result| result.page.hits.len())
        .sum();
    assert_eq!(hits, whole.len());
    let found = rows(&facts, &document);
    assert_eq!(
        execute_query_page(
            &mut document,
            provenance(2, None),
            QueryPageRequest {
                limit: 2,
                cursor: None
            },
            Ok(digest(5)),
            complete(found),
        ),
        Err(WorkbenchError::DuplicatePage {
            address: digest(5),
            start: 0
        })
    );
}

#[test]
fn cursors_are_bound_to_their_address() {
    let cursor = encode_cursor(digest(6), 300);
    assert_eq!(decode_cursor(&cursor, digest(6)), Ok(300));
    assert_eq!(
        decode_cursor(&cursor, digest(7)),
        Err(WorkbenchError::StaleCursor)
    );
    assert!(decode_cursor("nonsense", digest(6)).is_err());
}

#[test]
fn result_pages_hold_every_fact_once() {
    let hit = |rule: &str, extent: AspectGeometryDto| QueryHitDto {
        fact: EntityRefDto::Project {
            kind: "air-object".into(),
            local_id: 1,
        },
        extent: Some(extent),
        derivation: QueryDerivationDto {
            rule: rule.into(),
            premises: Vec::new(),
        },
    };
    let page = |hits: Vec<QueryHitDto>| QueryResultPageDto {
        query_term: "kind:object".into(),
        result_revision: 1,
        hits,
        next_cursor: None,
    };
    assert_eq!(
        validate_result_page(&page(vec![hit("fact", geometry(0, 4))])),
        Ok(())
    );
    assert_eq!(
        validate_result_page(&page(vec![
            hit("fact", geometry(0, 4)),
            hit("fact", geometry(0, 4))
        ])),
        Err(WorkbenchError::InvalidResult(
            "a result page contains a duplicate fact".into()
        ))
    );
    assert_eq!(
        validate_result_page(&page(vec![hit(" ", geometry(0, 4))])),
        Err(WorkbenchError::InvalidResult(
            "a derivation rule cannot be blank".into()
        ))
    );
    assert!(matches!(
        validate_result_page(&page(vec![hit("fact", geometry(4, 4))])),
        Err(WorkbenchError::InvalidRegion(_))
    ));
}

#[test]
fn residual_guides_need_ids_and_a_title() {
    let hotspots = geometry(0, 4).regions;
    assert_eq!(
        residual_guide(QueryDocumentId(8), "gaps".into(), &hotspots, 0, 12).err(),
        Some(WorkbenchError::InvalidQuery(
            "comparison and proposal ids cannot be zero".into()
        ))
    );
    assert!(residual_guide(QueryDocumentId(8), " ".into(), &hotspots, 11, 12).is_err());
    let bare = residual_guide(QueryDocumentId(8), "gaps".into(), &Vec::new(), 11, 12).unwrap();
    assert!(bare.auditions.is_empty());
}

#[test]
fn labels_of_queries_are_stable() {
    let query = QueryTermDto::And {
        terms: vec![
            QueryTermDto::Kind {
                kind: FactKindDto::Object,
            },
            QueryTermDto::Not {
                term: Box::new(QueryTermDto::NotExplainedBy { proposal_id: 7 }),
            },
            QueryTermDto::Within {
                aspect: geometry(0, 4),
            },
        ],
    };
    assert_eq!(
        query.stable_label(),
        "and(kind:object,not(not-explained-by:proposal:7),within:1-regions)"
    );
}

#[test]
fn rows_are_selected_before_they_are_used() {
    let mut model = WorkbenchPaneFactory::model(objects(3)).unwrap();
    assert_eq!(model.row_count(), 0);
    assert_eq!(
        model.reveal_target(),
        Err(WorkbenchActionRefusal::NoSelection)
    );
    assert_eq!(
        model.select_row(2),
        Err(WorkbenchActionRefusal::UnknownRow(2))
    );
}

fn kind(kind: FactKindDto) -> QueryTermDto {
    QueryTermDto::Kind { kind }
}

#[test]
fn query_builder_edits_selected_paths_without_rewriting_siblings() {
    let mut builder = QueryBuilderState::new(QueryTermDto::And {
        terms: vec![kind(FactKindDto::Object), kind(FactKindDto::Parameter)],
    });
    builder.select(vec![1]).unwrap();
    builder.cycle_selected_kind().unwrap();
    builder.wrap_selected(QueryWrapOperator::Not).unwrap();

    assert_eq!(
        builder.root(),
        &QueryTermDto::And {
            terms: vec![
                kind(FactKindDto::Object),
                QueryTermDto::Not {
                    term: Box::new(kind(FactKindDto::Hypothesis))
                }
            ]
        }
    );
    assert_eq!(builder.selected_path(), &[1, 0]);
    assert!(builder.is_dirty());
}

#[test]
fn query_builder_refuses_root_removal_and_wrong_editor_shape() {
    let mut builder = QueryBuilderState::new(kind(FactKindDto::Object));
    assert_eq!(
        builder.remove_selected(),
        Err(QueryBuilderRefusal::CannotRemoveRoot)
    );
    assert_eq!(
        builder.append_kind(FactKindDto::Source),
        Err(QueryBuilderRefusal::ExpectedList(Vec::new()))
    );
    assert_eq!(
        builder.adjust_proposal_id(-1),
        Err(QueryBuilderRefusal::ExpectedProposal(Vec::new()))
    );
}

#[test]
fn flattening_and_paths_are_stable_for_keyboard_or_accessibility_adapters() {
    let root = QueryTermDto::Or {
        terms: vec![
            kind(FactKindDto::Object),
            QueryTermDto::Related {
                to: Box::new(kind(FactKindDto::Source)),
            },
        ],
    };
    let rows = flatten_terms(&root);
    assert_eq!(
        rows.iter().map(|row| row.path.clone()).collect::<Vec<_>>(),
        vec![vec![], vec![0], vec![1], vec![1, 0]]
    );
    assert_eq!(path_label(&Vec::new()), "root");
    assert_eq!(path_label(&vec![1, 0]), "1-0");
}

#[test]
fn proposals_stay_positive_and_paths_must_exist() {
    let mut builder = QueryBuilderState::new(QueryTermDto::NotExplainedBy { proposal_id: 2 });
    builder.adjust_proposal_id(5).unwrap();
    assert_eq!(
        builder.root(),
        &QueryTermDto::NotExplainedBy { proposal_id: 7 }
    );
    assert_eq!(
        builder.adjust_proposal_id(-7),
        Err(QueryBuilderRefusal::InvalidProposalId)
    );
    assert_eq!(
        builder.select(vec![3]),
        Err(QueryBuilderRefusal::UnknownPath(vec![3]))
    );
    assert_eq!(
        builder.cycle_selected_kind(),
        Err(QueryBuilderRefusal::ExpectedKind(Vec::new()))
    );
    builder.accept(kind(FactKindDto::Object));
    assert!(!builder.is_dirty());
}

#[test]
fn only_valid_documents_are_written_and_read() {
    let document = objects(3);
    assert_eq!(document.to_json(Ok("{}".into())), Ok("{}\n".to_string()));
    assert_eq!(
        document.to_json(Err("io".into())),
        Err(WorkbenchError::Json("io".into()))
    );
    assert_eq!(QueryDocument::from_json(Ok(objects(3))), Ok(document));
    assert_eq!(
        QueryDocument::from_json(Err("line 1".into())),
        Err(WorkbenchError::Json("line 1".into()))
    );
    assert!(objects(0).to_json(Ok("{}".into())).is_err());
    assert!(QueryDocument::from_json(Ok(objects(0))).is_err());
}

#[test]
fn content_addresses_name_the_query_and_its_facts() {
    let input = query_content_address(Ok(b"{}".to_vec()), digest(5)).unwrap();
    assert_eq!(input.domain, "audec-air-query-execution-v1");
    assert_eq!(
        (input.query.as_slice(), input.algorithm.as_str(), input.fact_base),
        (b"{}".as_slice(), "sha256", [5; 32])
    );
    assert!(matches!(
        query_content_address(Err("too deep".into()), digest(5)),
        Err(WorkbenchError::Json(message)) if message == "too deep"
    ));
}
