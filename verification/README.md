# ZapCode modules

Sandboxed TypeScript-subset scripts as modules of Modular Agent. Scripts can
transform values, call registered tools, be tools themselves, and declare
whole nodes.

- **ZC Expr** evaluates an expression over each value that arrives.
- **ZC Runner** executes generated code with access to selected tools.
- **ZC Tool** is a tool whose implementation is a script.
- **ZC Script** is a node whose ports, configuration and behavior a script
  declares.

## Layout

`src/` is the library. Its functions carry contracts that Verus proves.

| Module | What it holds |
| ------ | ------------- |
| `text`, `entries` | Text and association lists, with their laws |
| `names`, `fence` | Rules on names; unwrapping of Markdown code fences |
| `host`, `json`, `exchange`, `value` | Values of the host and of the library |
| `pictures` | Which values can be written as JSON |
| `zap` | The value bridge: what scripts receive and hand back |
| `vm`, `bridge` | The interpreter, and a run from host call to host call |
| `configs`, `limits`, `shape` | Configuration, resource limits, the shape of a module |
| `declaration`, `describe`, `stale` | What a script declares, and how a node takes it on |
| `node` | The script node and its host functions |
| `evaluate`, `runner`, `tool`, `toolcall` | The other modules |

The calls into other crates stand behind small functions and declarations that
are believed without proof; each says in its doc comment what it claims.

`app/` is the async side: it performs the host calls that a run waits for,
sends values on, keeps the tool registry up to date and writes the log.

`tests/` runs the library together with the interpreter and the framework.
