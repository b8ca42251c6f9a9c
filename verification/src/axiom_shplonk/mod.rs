//! The layout of an Axiom SHPLONK proof and the names its verifiers use.

pub mod names;
pub mod layout;
pub mod items;
pub mod text;
pub mod openings;
pub mod pairing;
pub mod expression;
pub mod constraints;
pub mod proof_text;
pub mod render;
pub mod paths;
