//! Helpers shared by the field and point layers

pub mod conversion;
