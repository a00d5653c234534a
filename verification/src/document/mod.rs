//! The parts of a document that are independent of parsing: where blocks stand, references to
//! them, notations, and the text of formulas and prose.
pub mod directory;
pub mod errors;
pub mod language;
pub mod structure;
pub mod text;
pub mod system;
