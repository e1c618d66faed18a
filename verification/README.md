# freshed_rs

A verified core for an RSX-style HTML templating toolkit.

`src/` holds the logic that is proved with Verus:

- `markup` — the plain-value model of parsed markup (nodes, attributes,
  token trees, expression shapes) that the compiler reads;
- `plan` — the compiler's output: statements, diagnostics and symbol hints;
- `props`, `walk`, `emit`, `compile` — component props, the walk that turns
  markup into write statements, the merging of literal writes, and the
  checks and plan of a markup macro's expansion;
- `render`, `bindings` — laws about the walk: static markup becomes one
  literal write, the context reaches every component call, and generated
  bindings never share a name;
- `entry`, `attrs` — the markup macros' entry points and the `#[component]`,
  `#[with_children]` and `#[rsx_component]` attribute planners;
- `front` — the macros' front end: it reads their token input with `syn`
  and `rstml` (behind trusted conversions) into the plain-value model and
  plans each macro from the tokens;
- `web`, `respond` — request metadata read from HTTP headers, HTML
  responses, and the streaming writer;
- `text`, `modes` — escaping, case conversion and the other text helpers,
  and the macro modes.

`app/` is ordinary Rust around the library: it hands the macros' token
streams to `front`, writes the planned code with `quote`, and adapts the
responses and the stream writer to `actix-web` and `axum`.
