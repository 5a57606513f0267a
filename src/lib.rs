//! Numbering contracts for RISC-V hardware event numbers, and a model of the
//! supervisor trap-vector register.
pub mod example;
pub mod numbering;
pub mod register;

pub use numbering::{
    CoreInterruptNumber, ExceptionNumber, ExternalInterruptNumber, HartIdNumber, InterruptNumber,
    PriorityNumber,
};
