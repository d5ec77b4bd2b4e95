//! Parameter sets, as fixed-width hexadecimal strings

pub mod cs_p434;
pub mod cs_p610;
