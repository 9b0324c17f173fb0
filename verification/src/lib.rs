//! Verified core of a reading, session and recovery model for audio projects.

pub mod asking_laws;
pub mod command;
pub mod compacting;
pub mod compaction;
pub mod cursor;
pub mod diff_laws;
pub mod document_ids;
pub mod effect_laws;
pub mod effects;
pub mod event_log;
pub mod exchange_laws;
pub mod foreign_import;
pub mod guarding_laws;
pub mod journal;
pub mod json;
pub mod lifecycle;
pub mod lifecycle_laws;
pub mod live_project;
pub mod message_laws;
pub mod navigation;
pub mod objects;
pub mod packages;
pub mod pane;
pub mod pane_laws;
pub mod panels;
pub mod protocol;
pub mod protocol_laws;
pub mod publications;
pub mod pyramid;
pub mod query_builder;
pub mod query_document;
pub mod query_laws;
pub mod query_meaning;
pub mod query_terms;
pub mod rank;
pub mod reading;
pub mod reading_codec;
pub mod reading_diff;
pub mod reading_import;
pub mod reading_laws;
pub mod reading_merge;
pub mod reading_export;
pub mod reading_source;
pub mod reading_workflow;
pub mod receipts;
pub mod refusal_laws;
pub mod reveal_laws;
pub mod saving;
pub mod selection;
pub mod session;
pub mod source_graph;
pub mod storage_laws;
pub mod store;
pub mod streamed_waveform;
pub mod text;
pub mod tracing;
pub mod waveform_bins;
pub mod workbench_error;
pub mod workflow_laws;
pub mod wording;
pub mod writing_laws;
