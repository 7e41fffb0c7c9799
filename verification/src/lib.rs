//! An owning container that pairs a text buffer with the read-only view
//! derived from it (here: the buffer with surrounding whitespace trimmed),
//! so that both move and are torn down as one unit, with the view always
//! destroyed strictly before the buffer it depends on.

pub mod container;
pub mod trim;
