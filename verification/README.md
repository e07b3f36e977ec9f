# cachet

Core data structures and passes of the Cachet toolchain, written in Verus and
verified against their contracts.

- `syntax`, `ident`, `span`, `parse_error`, `registry`: the Cachet language
  front end's data, parse errors and the name registry.
- `type_checker`: helpers of the type checker: the sameness of types with
  the unknown type, upcast routes along supertypes, literal casts, and the
  item being checked.
- `stub`, `translator`: inline-cache stubs and their translation into Cachet
  source.
- `boogie`, `boogie_expr`, `boogie_decl`: Boogie programs and the text that
  prints them.
- `bpl_names`, `bpl_code`, `bpl_emit`, `bpl_print`, `flow`, `callable_repr`,
  `cpp`: pieces of the compiler backends: Boogie names and code, emit
  labels and jumps, the printing of compiled code, control-flow graphs, and
  how the C++ backend reads variables.
- `flat`, `compiler`, `entry_point`, `emit_stmt`, `invoke_trace`: the Boogie
  backend over a
  model of the flattened program: the declarations of enumerations,
  structures, IRs, global variables and callables, the whole program in
  order, the entry point that emits and interprets the top-level op along
  its control-flow graph, emit statements, and the tracing of invocations.
  The bodies of callables are taken already compiled.
- `reachability`, `shaking`, `decl_graph`, `graph_shape`, `bpl_tools`: tree
  shaking of Boogie programs (the graph of what each declaration needs, its
  shape, the walk over it, and the rewriting of the source text) and the
  setting of inlining levels.
- `text`, `indent`: text rendering helpers.

Outside crates: `petgraph` and `fixedbitset` (graph and depth-first search),
`indent_write` (indentation), `num-bigint` (inlining levels). Each call into
them goes through a small trusted function whose contract is stated next to
it.
