# xlang

The back half of a compiler for the X language, a small statically typed systems
language that compiles to C. The library takes a syntax tree and

- checks that only variables declared with `mut` are assigned to, that conditions
  are `bool`, that no value is cast without saying so, that no function is
  overloaded, and that no two methods become one C function (`typecheck`);
- writes one C translation unit for a program (`codegen`), with the runtime that
  it needs in front;
- handles the messages of a language server (`server`).

All of `src/` is verified with Verus. Each executable function has a contract over
mathematical models: a program denotes a verdict (`typecheck::program_verdict`) and
a text (`codegen::c::program_c`), a message denotes an action
(`server::dispatch::act_for`). What holds of the whole stands in `laws/`.

| Module | Contents |
|--------|----------|
| `ast`, `source` | the syntax tree and places in the source |
| `text`, `json` | texts, numbers as text, JSON strings |
| `names`, `scopes` | tables keyed by name, and nested scopes |
| `error` | what can go wrong |
| `aliases` | type aliases and the types that they stand for |
| `declared` | what a program declares: the types of functions, methods and fields |
| `values` | the types that can be read off an expression, and what may stand for what |
| `typecheck` | the checker and the table of expression types |
| `codegen::model` | what the generator knows and has written |
| `codegen::builtins`, `codegen::exprs` | builtin functions and expressions |
| `codegen::stmts` | statements and functions |
| `codegen::types`, `codegen::typedefs`, `codegen::order` | C types, their definitions, and the order of these |
| `codegen::runtime` | the C runtime |
| `codegen::c` | the generator |
| `server::wire`, `server::request` | framing, and what a message says |
| `server::dispatch`, `server::reply` | what to do about it, and what is sent back |
| `laws` | what is proved of the library as a whole |

`app/` runs the language server over standard input and output. The analysis of
documents is behind a trait there; without a symbol index it finds nothing.
