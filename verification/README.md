# audec

A verified core for an audio decomposition workbench: portable readings of a
recording, queries over what is known of it, the session that edits a project, and
the files that keep it.

The crate is a library. Everything under `src/` is proved with Verus: each function
states what it returns or changes, and the laws that hold of several functions
together are public proof functions beside them.

## Layout

| modules | what they hold |
| --- | --- |
| `text`, `rank`, `json` | text, total orders over keys, JSON payloads kept as text |
| `reading`, `reading_codec`, `reading_import`, `reading_merge`, `reading_diff`, `reading_source`, `reading_export`, `reading_workflow`, `foreign_import` | portable readings: envelope, sections, planning an import, coexisting hypotheses, differences, matching local material, export, and the edit that imports |
| `navigation`, `query_terms`, `query_document`, `query_builder`, `cursor`, `workbench_error` | query terms and documents, pages of results, residual guides |
| `protocol`, `pane`, `panels` | the line protocol without a screen, the state of the workbench pane, and what its panels show |
| `command`, `live_project`, `source_graph`, `objects`, `selection`, `session`, `document_ids`, `event_log`, `receipts`, `publications` | what a session edits, selects, reports and reveals |
| `effects`, `tracing` | how a reading's targets are heard and shown in a project |
| `journal`, `lifecycle`, `store`, `packages`, `saving`, `compaction`, `compacting` | opening, saving, recovering and compacting a project |
| `wording` | the words of every refusal, as a reader sees them |
| `waveform_bins`, `pyramid`, `streamed_waveform` | exact waveform summaries at every zoom |

Samples and frequencies are kept as single-precision bit patterns; the library
compares them and never computes with them.

Whatever happens outside, such as reading a file, running a query engine or applying
a command, comes in as an argument. Where work alternates with decisions, as in a
save or a journal recovery, the library holds the state and says what to do next.

`app/` is the ordinary Rust around it: JSON documents, files on disk, averages of
samples and the drawing of the pane. `tests/` runs the library on
concrete values.
