# orion_error

Structured error governance: domain reasons with stable identities, the
operation context an error passed through, a runtime error carrier with its
source chain, and the report / snapshot / protocol projections built from it.

The library in `src/` is written in Verus; every public function carries a
contract over a mathematical view of its types, and the laws that relate
several operations are proof functions (`law_*`).

- `text` — string helpers and their specifications (joining, trimming, lines,
  numbers as text, ordering of texts).
- `metadata` — `ErrorMetadata`, a key-ordered map of typed values.
- `reason` — `DomainReason`, `ErrorCode`, `ErrorIdentityProvider`,
  `ErrorCategory`, and the identity text rules.
- `universal` — `UnifiedReason`, the built-in reason set.
- `context` — `OperationContext`: action, locator, path, fields, metadata,
  result; `OperationScope`.
- `source` — source frames and payloads of standard and structured sources.
- `error` — `StructError`, its builder, paths, merged metadata, display and
  source chain.
- `conversion` — `ErrorWith`, reason conversion, wrapping, first entry of raw
  errors.
- `report` — redaction policies and `DiagnosticReport`.
- `protocol` — exposure policies, decisions and `ErrorProtocolSnapshot`.
- `snapshot` — `ErrorSnapshot` and its stable export.
- `derive_plan` — what the derive attributes of a reason type mean, read
  entry by entry.
- `attr_syntax` — reading the argument tokens of an `orion_error(...)`
  attribute (through syn) into entries.

`app/` holds what stays outside the verified library: reading
`std::error::Error` chains, the standard-error wrappers, JSON output, logging,
CLI printing and test assertion helpers.
