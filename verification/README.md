# structuredmerge_core

The kernel of a structured-merge service: the common operation request and
result contract, source evidence, the native profile catalog, admission of
requests to the native and JSON families, and the checks and projections that
turn a family's execution into a common result. The functions in `src/` are
verified with Verus against the contracts in their headers, except five
trusted wrappers whose contracts are believed: in `src/source.rs`, `sha256`
(the `sha2` crate's SHA-256 digest, named by `sha256_digest`), `utf8_valid`
(`std::str::from_utf8`) and `string_from_utf8` (`String::from_utf8_lossy`);
in `src/text.rs`, `debug_quoted` (std's debug text of a string, named by
`debug_text`) and `json_string_text` (`serde_json::to_string` on a string,
its escaping stated by `json_string`).

## Layout

- `src/source.rs`, `src/role_map.rs`, `src/text.rs`, `src/metadata.rs`:
  source descriptors bound to their exact bytes, role-keyed maps, string and
  byte helpers, and open-ended JSON fields.
- `src/operation.rs`, `src/operations.rs`, `src/lib.rs`: request transport
  and validation, the common facade's request normalization (inline sources
  only), typed operation inputs, operation kinds and their source roles.
- `src/operation_result.rs`, `src/portable_diagnostic.rs`,
  `src/portable_conflict.rs`: the result, diagnostic and conflict contracts
  and their validators.
- `src/profiles.rs`, `src/capabilities.rs`: the operation profile catalog
  and the capability plan a host executes against its parser service.
- `src/native_operation.rs`, `src/json_operation.rs`: admission of a request
  to a native owner profile or to the JSON family, and the projection of an
  execution into change records, diagnostics and the result envelope.
- `src/native_analysis_projection.rs`, `src/native_output_validation.rs`,
  `src/native_conflict_projection.rs`, `src/json_analysis.rs`,
  `src/json_diff.rs`: the evidence a native or JSON result embeds, checked
  against the request, the projection of an executed owner analysis into
  owners, layout gaps and their ownership, and the projection of native
  merge conflicts.
- `src/merge.rs`, `src/diff.rs`, `src/edits.rs`, `src/workflow.rs`,
  `src/host.rs`: native merge and diff entry points over execution reports,
  explicit source edits, workflow batches, and parser service failures.
- `app/`: the JSON wire format (serde copies of the records and their
  conversions) and the host-side loops that call a parser service or a
  renderer and hand the results to the library.
- `tests/`: tests of the library on concrete values.
