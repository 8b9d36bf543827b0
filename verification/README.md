# oas-rs

Typed HTTP routing with OpenAPI 3.1 metadata, verified with Verus.

An application registers handlers under methods and path templates. A build compiles it into
an immutable runtime, which routes requests, extracts captures, limits bodies and answers what
no handler serves. The OpenAPI document and the Swagger page are written from what was
registered.

- `src/` is the library. Every function carries a contract, and `laws.rs` states what holds of
  the library as a whole: precedence, fallbacks, refusals, captures, body limits, documents.
- `app/` is the server around it: async handlers and extractors, the Hyper adapter, the code of
  the `ApiSchema` derive, a benchmark server and two small applications.
- `tests/` runs the library from outside.

The library holds the routes (`router.rs`, `trie.rs`, `registry.rs`, `plan.rs`), the builder
(`app.rs`, `settings.rs`, `compile.rs`), the runtime (`runtime.rs`, `dispatch.rs`), requests
(`path.rs`, `uri.rs`, `params.rs`, `percent.rs`, `query.rs`, `fields.rs`, `extract.rs`), responses (`response.rs`,
`error.rs`, `status.rs`), documentation (`openapi.rs`, `schema.rs`, `derive.rs`) and the logic of
the benchmark server (`bench.rs`). What it calls of `serde_json`, `bytes`, `http`, `uuid` and the
standard library stands behind functions with stated contracts in `json.rs`, `payload.rs`,
`headers.rs`, `uri.rs`, `bench.rs`, `text.rs` and `shared.rs`.

## Example

```rust
let mut app = App::new();
app.openapi().title("Hello API").version("1.0.0");
app.get("/", hello).tag("Health").summary("Say hello");
app.swagger().path("/swagger");
app.build()?.listen("0.0.0.0:8080").await
```
