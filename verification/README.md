# ruac

A verified compiler library from the Rua language to Lua 5.5.

- `src/` is the library. Every pass states what it computes over mathematical
  forms of its input, and Verus proves it: parsing a token stream with its
  attributes (`parser`), finding and assembling modules (`sources`, `project`,
  `module_tree`, `resolve`, `stamp`), filtering inactive items (`attributes`),
  name resolution (`resolution`), structural checks (`check`), annotations
  (`annotation_*`), the Lua back end (`codegen`, `backend_layout`, `lua_ir`,
  `lua_print`) and artifacts (`artifact`).
- Public proof functions named `law_*` state what holds of whole passes, such as
  which places of a program differ (`layout_laws`).
- `tests/` runs the library on concrete programs.
- `app/` is the command line and the file system around the library. A host
  supplies the lexer, the type checker, the standard library and the project
  configuration through its `Frontend` trait.
