# lin_ir

`lin_ir` turns the typed syntax tree of Lin, a small functional language, into a block-structured
intermediate representation with explicit reference counting. It is a library without I/O: a
compiler driver hands it typed expressions and tables of what it knows about the program, and takes
functions of basic blocks back.

## What is proved

Every function that emits code has an exact contract: the state after the call, as a mathematical
value, is what its specification function makes of the state before. `expr::lower_expr` ties the
knot; `expr::lower_at` is its specification.

On top of that every lowering function states

- what it leaves alone: open scopes, the current source span, the tables of the program, the depth
  of nesting (`ctx::ran`);
- that it keeps the state valid: every block that a jump goes to or that a phi names exists, every
  temporary that code, variables, scopes or cells mention exists, and no temporary is defined twice
  (`ctx::valid`).

`laws.rs` and `depth.rs` state what holds across functions: references that a scope owns are given
back as often as they were registered, a tail call hands on exactly one reference for each argument,
an attempt that does not apply emits nothing, a value goes into a slot of its own type without a
conversion, a conversion is needed both ways or not at all, adapters for default arguments cover
every arity, and how deeply expressions may be nested does not matter to what comes out.

`run.rs` says how the emitted code runs. On it rest the laws on loops:

- a run of what `some` or `every` is lowered to gives the answer of the quantifier, asks the
  callback for the elements in order and never after the answer is settled, and `every` is the
  negation of `some` with the callback turned round (`asking`, `questions`, `leaving`, `calling`,
  `direct`);
- in a run of a fused loop each step meets the values that it would meet if the steps before it had
  been done on whole collections, in the same order and with the same positions (`flowing`,
  `fusion`, `straight`, `fusing`).

A record type holds its fields as a list. `Type::wf` says that their names differ, at any depth;
`types::with_field` and `types::with_fields` build such lists, and what is taken out of a
well-formed type is well-formed.

A variable lives in a heap cell where a function inside may assign to it, or where it holds a
counted value and is assigned to in a branch. `FuncBuilder::scan_body` finds these variables for one
function body, where that body is lowered; a driver calls `FuncBuilder::scan_stmts` for the
statements at the top level.

## Layout

| module | contents |
| --- | --- |
| `list`, `text` | shared lists, text put together from pieces |
| `types`, `repr` | static types and how their values are held |
| `ast`, `ir` | the source tree and the code that comes out |
| `names`, `recognize` | symbols and shapes of calls that get special treatment |
| `analysis` | questions about expressions: freshness, assignments, captures |
| `builder`, `ctx` | the function under construction, the context, and their models |
| `coerce`, `literal`, `field_table` | conversions, literals, tables of record fields |
| `expr`, `control`, `func`, `call`, `adapter` | lowering of expressions, branches, functions, calls, default arguments |
| `loops`, `fuse`, `combinator`, `collect` | loops over collections and their fusion |
| `valid`, `defs` | which temporaries exist, and how often they are defined |
| `laws`, `depth` | laws; nesting |
| `run`, `looping`, `leaving` | how code runs, loops over a collection, loops that are left early |
| `asking`, `questions`, `calling`, `direct` | loops that ask a question of their elements, and how they ask |
| `flowing`, `fusion`, `straight`, `fusing` | what goes through the steps of fused loops |

Numbers of temporaries, blocks and functions are 32 bits wide. Where they run out, the builder or
the context records it in `exhausted`; where expressions are nested more deeply than a machine word
can count, the context records that in `too_deep`. A driver checks both before it uses the code.

## What is trusted

- `list::share` rests on the documentation of `Rc::clone`.
- `field_table` keeps the fields of a variant in an `IndexMap`, behind three wrappers with
  contracts over its contents.

Everything else is proved.
