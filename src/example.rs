//! Example enumerations that implement the numbering contracts: exceptions
//! and interrupt sources with gaps between their codes, priority levels and
//! HART IDs with dense codes.
use vstd::prelude::*;
use crate::numbering::{ExceptionNumber, HartIdNumber, InterruptNumber, PriorityNumber};

verus! {

/// Exceptions with the codes 1 and 3: codes 0 and 2 are gaps.
#[derive(Clone, Copy, Debug, PartialEq, Eq, Structural)]
pub enum Exception {
    E1,
    E3,
}

impl ExceptionNumber for Exception {
    const MAX_EXCEPTION_NUMBER: u16 = 3;

    open spec fn spec_number(self) -> u16 {
        match self {
            Exception::E1 => 1,
            Exception::E3 => 3,
        }
    }

    open spec fn spec_max() -> u16 {
        3
    }

    proof fn lemma_max_constant() {
    }

    proof fn lemma_number_injective(a: Self, b: Self) {
    }

    proof fn lemma_number_bounded(v: Self) {
    }

    proof fn lemma_max_attained() {
        assert(Exception::E3.spec_number() == 3);
    }

    fn number(self) -> (r: u16) {
        match self {
            Exception::E1 => 1,
            Exception::E3 => 3,
        }
    }

    fn from_number(value: u16) -> (r: Result<Self, u16>)
        ensures
            r == (if value == 1 {
                Ok(Exception::E1)
            } else if value == 3 {
                Ok(Exception::E3)
            } else {
                Err(value)
            }),
    {
        if value == 1 {
            Ok(Exception::E1)
        } else if value == 3 {
            Ok(Exception::E3)
        } else {
            proof {
                assert forall|v: Self| #[trigger] v.spec_number() != value by {
                    match v {
                        Exception::E1 => {},
                        Exception::E3 => {},
                    }
                }
            }
            Err(value)
        }
    }
}

/// Interrupt sources with the codes 1, 2 and 4: codes 0 and 3 are gaps.
#[derive(Clone, Copy, Debug, PartialEq, Eq, Structural)]
pub enum Interrupt {
    I1,
    I2,
    I4,
}

impl InterruptNumber for Interrupt {
    const MAX_INTERRUPT_NUMBER: u16 = 4;

    open spec fn spec_number(self) -> u16 {
        match self {
            Interrupt::I1 => 1,
            Interrupt::I2 => 2,
            Interrupt::I4 => 4,
        }
    }

    open spec fn spec_max() -> u16 {
        4
    }

    proof fn lemma_max_constant() {
    }

    proof fn lemma_number_injective(a: Self, b: Self) {
    }

    proof fn lemma_number_bounded(v: Self) {
    }

    proof fn lemma_max_attained() {
        assert(Interrupt::I4.spec_number() == 4);
    }

    fn number(self) -> (r: u16) {
        match self {
            Interrupt::I1 => 1,
            Interrupt::I2 => 2,
            Interrupt::I4 => 4,
        }
    }

    fn from_number(value: u16) -> (r: Result<Self, u16>)
        ensures
            r == (if value == 1 {
                Ok(Interrupt::I1)
            } else if value == 2 {
                Ok(Interrupt::I2)
            } else if value == 4 {
                Ok(Interrupt::I4)
            } else {
                Err(value)
            }),
    {
        if value == 1 {
            Ok(Interrupt::I1)
        } else if value == 2 {
            Ok(Interrupt::I2)
        } else if value == 4 {
            Ok(Interrupt::I4)
        } else {
            proof {
                assert forall|v: Self| #[trigger] v.spec_number() != value by {
                    match v {
                        Interrupt::I1 => {},
                        Interrupt::I2 => {},
                        Interrupt::I4 => {},
                    }
                }
            }
            Err(value)
        }
    }
}

/// Priority levels with the dense codes 0 to 3.
#[derive(Clone, Copy, Debug, PartialEq, Eq, Structural)]
pub enum Priority {
    P0,
    P1,
    P2,
    P3,
}

impl PriorityNumber for Priority {
    const MAX_PRIORITY_NUMBER: u8 = 3;

    open spec fn spec_number(self) -> u8 {
        match self {
            Priority::P0 => 0,
            Priority::P1 => 1,
            Priority::P2 => 2,
            Priority::P3 => 3,
        }
    }

    open spec fn spec_max() -> u8 {
        3
    }

    proof fn lemma_max_constant() {
    }

    proof fn lemma_number_injective(a: Self, b: Self) {
    }

    proof fn lemma_number_bounded(v: Self) {
    }

    proof fn lemma_max_attained() {
        assert(Priority::P3.spec_number() == 3);
    }

    fn number(self) -> (r: u8) {
        match self {
            Priority::P0 => 0,
            Priority::P1 => 1,
            Priority::P2 => 2,
            Priority::P3 => 3,
        }
    }

    fn from_number(value: u8) -> (r: Result<Self, u8>)
        ensures
            r == (if value == 0 {
                Ok(Priority::P0)
            } else if value == 1 {
                Ok(Priority::P1)
            } else if value == 2 {
                Ok(Priority::P2)
            } else if value == 3 {
                Ok(Priority::P3)
            } else {
                Err(value)
            }),
    {
        if value > Self::MAX_PRIORITY_NUMBER {
            proof {
                assert forall|v: Self| #[trigger] v.spec_number() != value by {
                    Self::lemma_number_bounded(v);
                }
            }
            Err(value)
        } else if value == 0 {
            Ok(Priority::P0)
        } else if value == 1 {
            Ok(Priority::P1)
        } else if value == 2 {
            Ok(Priority::P2)
        } else {
            Ok(Priority::P3)
        }
    }
}

/// HART identifiers with the dense codes 0 to 2.
#[derive(Clone, Copy, Debug, PartialEq, Eq, Structural)]
pub enum HartId {
    H0,
    H1,
    H2,
}

impl HartIdNumber for HartId {
    const MAX_HART_ID_NUMBER: u16 = 2;

    open spec fn spec_number(self) -> u16 {
        match self {
            HartId::H0 => 0,
            HartId::H1 => 1,
            HartId::H2 => 2,
        }
    }

    open spec fn spec_max() -> u16 {
        2
    }

    proof fn lemma_max_constant() {
    }

    proof fn lemma_number_injective(a: Self, b: Self) {
    }

    proof fn lemma_number_bounded(v: Self) {
    }

    proof fn lemma_max_attained() {
        assert(HartId::H2.spec_number() == 2);
    }

    fn number(self) -> (r: u16) {
        match self {
            HartId::H0 => 0,
            HartId::H1 => 1,
            HartId::H2 => 2,
        }
    }

    fn from_number(value: u16) -> (r: Result<Self, u16>)
        ensures
            r == (if value == 0 {
                Ok(HartId::H0)
            } else if value == 1 {
                Ok(HartId::H1)
            } else if value == 2 {
                Ok(HartId::H2)
            } else {
                Err(value)
            }),
    {
        if value > Self::MAX_HART_ID_NUMBER {
            proof {
                assert forall|v: Self| #[trigger] v.spec_number() != value by {
                    Self::lemma_number_bounded(v);
                }
            }
            Err(value)
        } else if value == 0 {
            Ok(HartId::H0)
        } else if value == 1 {
            Ok(HartId::H1)
        } else {
            Ok(HartId::H2)
        }
    }
}

} // verus!
