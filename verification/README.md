# zadt

Typed support for the SAP ABAP Development Tools (ADT) protocol, with the
protocol logic verified by Verus.

## Layout

- `src/` is the verified library. Every executable function states its
  behaviour in `requires`/`ensures` clauses over mathematical models (`Seq`,
  `Map`, views of the library's types), and the laws that span several
  functions are public proof functions.
  - `uri`, `resource`, `objects`, `vocabulary`: validated ADT locations,
    object references and link resolution.
  - `protocol`, `operation`, `compatibility`: transport-neutral requests and
    responses, user-session context cookies, media-type negotiation.
  - `discovery`, `session`, `object`, `program`, `program_query`,
    `include_query`, `class_source`, `transports`, `transport_query`: the
    individual ADT operations, split into request construction, response
    checks and validation of decoded documents.
  - `batch`: multipart batch encoding and decoding.
  - `traced`: the decisions of the call-tracing decorator (what body text is
    logged, and how).
  - `destination`: the settings of an HTTP transport.
  - `vfs`: the lazily loaded virtual repository tree — mounts and facet
    policies, the load machine that decides which repository query comes
    next, and the node graph with its commit and refresh rules.
- `app/` is the program around the library: the `reqwest` transport, the
  tracing decorator's `tracing` events, serde readers for the XML documents,
  the asynchronous driver of the repository tree, and `main`.
- `tests/` exercises the library on concrete values.

Outside functions that the library relies on (URL parsing, HTTP head parsing,
XML pretty printing, cookie parsing, UUIDs) are reached through small trusted
wrappers whose contracts name or state their results.
