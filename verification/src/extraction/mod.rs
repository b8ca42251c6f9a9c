//! Pieces of the verifier generator that do not depend on a circuit: how
//! rotations are named and how the opening steps read and are costed.

pub mod text;
pub mod rotation_description;
pub mod pcs;
pub mod msm;
pub mod queries;
