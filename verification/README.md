# pw_core

The core checks of the Pleris compiler for web applications, verified with
Verus: what a component may import and under which runtime profile, whether a
typed value may cross a resume manifest or a remote call, how a component's
contract is derived and audited, where the work a body mentions actually
runs, the diagnostic code registry, and the structural rules over markup.

- `src/` is the library. Every function carries a `requires`/`ensures`
  contract over spec functions, and the laws the library promises (the audit
  is fail-closed, a capability is recovered from its canonical text, a value
  crosses only where every restriction it carries is held, the innermost
  region decides a span's context, ...) are public proof functions.
- `tests/` runs the library on concrete programs.
- `app/` holds the wire form of a component contract, with serde's derives,
  and conversions to and from the library's types.

## What `src/` holds, and what it does not

`src/` holds the checks whose inputs are plain values: the capability and
boundary rules, the privacy lattice, contract derivation and audit, the
structural markup rules, the template-block rules (`templates`, with what
inference knows of each block's subject and what the unit's names resolve
to handed in), the diagnostic registry, the literal segment and helper
index of a core module, the bodies of the module's own string routines
(`backend::code`, each instruction list stated exactly, with every block
closed, every branch and local in range, and every call to the allocator),
the merge sort the encoder writes around a caller's comparison
(`backend::sort`), the decisions a core module's encoding starts with
(`backend::plan`), and how the checker settles its findings (`findings`:
one diagnostic per finding, in source order).

Name resolution, type and effect inference, the effect ontology, the
placement solver, the exhaustiveness matrix and the HIR builder are not
here. `check_units`, `check_unit`, `match_analysis` and `contracts` run
those passes over whole units. The effect-row rule decides with the
inference's answers (which effects a body performs, which a row covers,
which are undeclared, what a placement grants, what each phase forbids),
and the way those answers are computed is not part of this library. The
parts of the core-module encoder that build sections, read a WIT world or
lay out canonical-ABI values go through `wasm_encoder` and `wit_parser`.
