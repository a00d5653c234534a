//! The deductive core: formulas, substitutions, and the checking of axioms, theorems and proofs.
pub mod directory;
pub mod errors;
pub mod language;
pub mod substitution;
pub mod system;
pub mod properties;
