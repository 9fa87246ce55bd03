# typed_schema

A typed schema index: named types described by a JSON Schema and their fields (with
optional metrics), operations from one named type to another (optionally routed over
HTTP), the check an index must pass, tool definitions for function-calling models
projected from index types, and the decisions of the `Shape` and `Op` derives.

- `src/` is the library, verified with Verus:
  - `model`: the index types; `order`: sorting entries by name and assembling an index;
  - `check`: the rules of an index and the check that reports the first rule broken;
  - `tool`: tools, manifests and their OpenAI function-tool projection;
  - `attr`, `derive`, `diag`: reading `#[shape]`, `#[serde]` and `#[op]` attributes and
    planning what the derives generate, with their diagnostics;
  - `case`: serde `rename_all` case conversions; `text`: character helpers;
  - `json`: `serde_json` values seen through what they hold;
  - `laws`: properties proved of the check, its error messages and the sort;
    `case_laws`: of the case conversions; `attr_laws`: of what the attribute readers accept.
- `app/` holds what Verus does not see: serde and JSON Schema forms of the types,
  JSON Schema generation, the `index!` macro, and the derive expansions that read items
  with `syn` and write code with `quote` (a `proc-macro` crate registers `derive_shape`
  and `derive_op` as the `Shape` and `Op` derives).
- `tests/` exercises the library.
