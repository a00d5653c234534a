//! What the builders keep while they gather a document: references to the blocks being built, the
//! indexes through which blocks are found by name, and the structural checks that a document must
//! pass before its formulas are built.
pub mod directory;
pub mod errors;
pub mod index;
pub mod text;
pub mod language;
pub mod system;
pub mod properties;
pub mod justification;
pub mod formula;
pub mod blocks;
pub mod bibliography;
pub mod structure;
pub mod phases;
pub mod entries;
pub mod checkable;
pub mod placement;
