# axiomc

The lowering of parsed Axiom programs to their typed intermediate form, verified with
Verus, for a subset of the language.

The source model (`syntax`) covers literals, variables, calls (with explicit type
arguments), arithmetic, comparison and logical operators, `*e`, `&mut e`, `e.await`,
`e as T`, tuple and array literals, and the statements `let`, assignment, `print`, `panic`,
`defer`, `if`, `while`, `match` over enum variants, `break`, `continue` and `return`; declarations of
consts and statics, structs, enums, type aliases and functions, generic or not.

Left out: struct and map literals, field and tuple-index access, indexing and
slicing, method calls, closures, `?`, `match` as an expression, `if let`,
traits, impls and trait bounds, property functions, `const fn` integer constant
evaluation, and the host intrinsics that check network or HTTP server allowlists
beyond `net_tcp_dial`, `http_get` and `process_status` (as well as `len`, `first`,
`last`, the `assert_*` family, JSON serdes and the signing and sealing crypto helpers).

A program goes through these steps, each stated as a contract over mathematical models
of the program and proved:

1. Monomorphization (`monomorphize`, `call_inference`, `generic_inference`,
   `aggregates`): duplicate and unconstrained generic declarations are refused, omitted
   type arguments are inferred, and every generic function, struct and enum is replaced
   by the instances its uses need.
2. Declarations (`lower_types`, `lower_defs`, `recursion`, `const_eval`): type names,
   enums, structs (without unboxed recursion), const array lengths and signatures.
3. Bodies (`lower_expr`, `lower_stmt`, `lower_functions`, `control_flow`,
   `capabilities`): expressions and statements are typed, moves are tracked, control
   flow is checked, and host-runtime intrinsics (network, process, file system, clock,
   environment, crypto, JSON, regex, string and encoding helpers, map lookups, the
   async runtime) are typed and gated by capabilities.
4. The program (`lower_program`): every diagnostic is collected and reported in
   canonical order (`diagnostics`).

`laws` states properties that span these steps. `app/` holds the serializable copies
of the lowered program and an entry point that checks what lowering asks of its input.
