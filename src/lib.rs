//! Rank-1 constraint gadgets for MiMC7, fixed-base generator tables, Pedersen
//! commitments and key-escrow encryption over BLS12-381 and Jubjub.
pub mod field;
pub mod mimc7;
pub mod cs;
pub mod mimc7_circuit;
pub mod curve;
pub mod constants;
pub mod pedersen;
pub mod encryption;
