//! A model of the RP2040 address space for offline firmware inspection: the UF2
//! container parser, the memory layout, and the decisions that drive an
//! instruction-set engine through loading and a bounded, traced run.

pub mod byte_order;
pub mod flags;
pub mod harness;
pub mod layout;
pub mod rp2040;
pub mod uf2_parser;
pub mod uf2_theory;
