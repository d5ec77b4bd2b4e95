//! Arithmetic for isogeny-based key encapsulation: the contract of a finite
//! field, the quadratic extension built on it, and projective points over
//! either.

pub mod constants;
pub mod ff;
pub mod isogeny;
pub mod utils;
