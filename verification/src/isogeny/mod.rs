//! Elliptic curve points for isogeny computations

pub mod point;
