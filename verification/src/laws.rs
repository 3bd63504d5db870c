//! What holds of every step, whatever the fields hold.

pub mod determinism;
pub mod rest;
pub mod walls;
