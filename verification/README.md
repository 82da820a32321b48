# lenso_runtime

The host side of the Lenso runtime: App Generations and their durable control state, Plugin Bundles, the
Plugin Store, Host distributions, Execution Adapters, guest SDKs and the authoring macros.

`src/` is the library, verified with [Verus](https://github.com/verus-lang/verus). Its functions
have contracts, and public proof functions state what holds across functions. `app/` is ordinary Rust around it:
files, processes, the async loop, native code behind a C ABI, and the generated glue of the macros. It
performs what the library decides and hands back what came of it.

## Modules

| Module | Holds |
| --- | --- |
| `json`, `canonical`, `digest`, `text`, `text_map`, `paths`, `decode` | JSON trees and strictness, canonical documents and their identities, text and paths |
| `model`, `error`, `failure` | authority documents, control-plane errors, runtime failures |
| `plan`, `generation`, `resolver`, `catalog` | resolved Plans, closed Generations, Adapter selection |
| `durable`, `lifecycle`, `edge` | control state, its transitions, the rules of a Generation edge |
| `supervisor`, `durable_supervisor`, `controller`, `kernel` | staging, routing, leases, rollback, recovery, maintenance, suspension, shutdown |
| `bundle`, `selection`, `store`, `distribution` | Bundles, implementation selection, admission, Host distributions |
| `native`, `dylib`, `driver` | linked Plugins, native libraries, the browser timer |
| `guest`, `portable` | guest clients and portable request handlers |
| `authoring` | attributes, configuration Schemas, descriptors and expansion plans of the macros |
| `laws` | laws of the control state and of the authority over it |

## What is trusted

Calls into outside crates stand behind small wrappers, each with a comment that names the outside function
and says what its contract claims. Where a result takes pages to state, the wrapper gives it a name:
`sha256`, `value_tree`, `read_json`, `compact_json`, `semantic_version`, `wasm_payloads`,
`descriptor_tree`, `descriptor_verdict`, `read_descriptor`, `resolved_descriptor`, `plan_verdict`,
`plan_instances`, `plan_endpoints`, `plan_bindings`, `toml_tree`, `double`, `white_space`.

`serde_json` is used with `preserve_order`: the order of an object's fields is the library's to decide.
