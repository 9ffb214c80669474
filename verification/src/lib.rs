//! Generation of vacuity, precondition and completeness probes for contract clauses,
//! and the reading of a model checker's verdicts back onto them.

pub mod arbitrary;
pub mod harness;
pub mod harness_laws;
pub mod laws;
pub mod model;
pub mod probe;
pub mod syntax;
pub mod text;
pub mod verdict;
