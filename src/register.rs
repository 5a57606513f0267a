//! Control and status register models.
pub mod stvec;
