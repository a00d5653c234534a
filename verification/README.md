# ckproof

A library for writing mathematics as formal systems and checking it: types, symbols,
definitions, axioms, theorems and their proofs, together with the prose, tables, quotes and
bibliography of the books they stand in.

Every function of the library is verified against its contract, except one that calls the
`url` crate to parse addresses; its contract is trusted.

- `src/builders`: a library as it was written. Blocks are placed at their locations in reading
  order, indexed by system and id, then checked for their structure (required and duplicate
  entries, references to systems, children, tags and bibliography keys, the order of proofs),
  and the operators of their symbols are gathered.
  Formulas are read by operator precedence and resolved against the variables and operators of
  their system; proof steps unfold into small steps. Types, symbols, definitions, axioms,
  theorems, formulas and small steps turn into what deduction checks, their references found by
  place. Entries are gathered from the nodes a reader hands over.
- `src/deduction`: the formal core. Checking of formulas (references, arity and types),
  substitution and matching, definition expansion, and the check of every proof step and proof.
- `src/document`: block locations and references, the text of formulas and prose, and the check
  of proof blocks, whose errors are reported at the step that was written.
- `src/rendered.rs`: the shape in which a document is shown.
- `app/`: writing a rendered document as JSON and printing errors.
- `tests/`: tests of the library on concrete values.
