use riscv::example::{Exception, HartId, Interrupt, Priority};
use riscv::numbering::{
    check_numbering, distinct_numbers, max_number, ExceptionNumber, HartIdNumber,
    InterruptNumber, PriorityNumber,
};

#[test]
fn check_exception_enum() {
    assert_eq!(Exception::E1.number(), 1);
    assert_eq!(Exception::E3.number(), 3);

    assert_eq!(Exception::from_number(0), Err(0));
    assert_eq!(Exception::from_number(1), Ok(Exception::E1));
    assert_eq!(Exception::from_number(2), Err(2));
    assert_eq!(Exception::from_number(3), Ok(Exception::E3));
    assert_eq!(Exception::from_number(4), Err(4));
}

#[test]
fn check_interrupt_enum() {
    assert_eq!(Interrupt::I1.number(), 1);
    assert_eq!(Interrupt::I2.number(), 2);
    assert_eq!(Interrupt::I4.number(), 4);

    assert_eq!(Interrupt::from_number(0), Err(0));
    assert_eq!(Interrupt::from_number(1), Ok(Interrupt::I1));
    assert_eq!(Interrupt::from_number(2), Ok(Interrupt::I2));
    assert_eq!(Interrupt::from_number(3), Err(3));
    assert_eq!(Interrupt::from_number(4), Ok(Interrupt::I4));
    assert_eq!(Interrupt::from_number(5), Err(5));
}

#[test]
fn check_priority_enum() {
    assert_eq!(Priority::P0.number(), 0);
    assert_eq!(Priority::P1.number(), 1);
    assert_eq!(Priority::P2.number(), 2);
    assert_eq!(Priority::P3.number(), 3);

    assert_eq!(Priority::from_number(0), Ok(Priority::P0));
    assert_eq!(Priority::from_number(1), Ok(Priority::P1));
    assert_eq!(Priority::from_number(2), Ok(Priority::P2));
    assert_eq!(Priority::from_number(3), Ok(Priority::P3));
    assert_eq!(Priority::from_number(4), Err(4));
}

#[test]
fn check_hart_id_enum() {
    assert_eq!(HartId::H0.number(), 0);
    assert_eq!(HartId::H1.number(), 1);
    assert_eq!(HartId::H2.number(), 2);

    assert_eq!(HartId::from_number(0), Ok(HartId::H0));
    assert_eq!(HartId::from_number(1), Ok(HartId::H1));
    assert_eq!(HartId::from_number(2), Ok(HartId::H2));
    assert_eq!(HartId::from_number(3), Err(3));
}

#[test]
fn every_variant_round_trips() {
    for e in [Exception::E1, Exception::E3] {
        assert_eq!(Exception::from_number(e.number()), Ok(e));
    }
    for i in [Interrupt::I1, Interrupt::I2, Interrupt::I4] {
        assert_eq!(Interrupt::from_number(i.number()), Ok(i));
    }
    for p in [Priority::P0, Priority::P1, Priority::P2, Priority::P3] {
        assert_eq!(Priority::from_number(p.number()), Ok(p));
    }
    for h in [HartId::H0, HartId::H1, HartId::H2] {
        assert_eq!(HartId::from_number(h.number()), Ok(h));
    }
}

#[test]
fn codes_above_max_are_handed_back() {
    assert_eq!(Exception::from_number(u16::MAX), Err(u16::MAX));
    assert_eq!(Interrupt::from_number(1000), Err(1000));
    assert_eq!(Priority::from_number(u8::MAX), Err(u8::MAX));
    assert_eq!(HartId::from_number(u16::MAX), Err(u16::MAX));
}

#[test]
fn max_constants_are_highest_codes() {
    assert_eq!(Exception::MAX_EXCEPTION_NUMBER, Exception::E3.number());
    assert_eq!(Interrupt::MAX_INTERRUPT_NUMBER, Interrupt::I4.number());
    assert_eq!(Priority::MAX_PRIORITY_NUMBER, Priority::P3.number());
    assert_eq!(HartId::MAX_HART_ID_NUMBER, HartId::H2.number());
}

#[test]
fn max_number_of_codes() {
    assert_eq!(max_number(&[]), None);
    assert_eq!(max_number(&[7]), Some(7));
    assert_eq!(max_number(&[1, 3]), Some(3));
    assert_eq!(max_number(&[4, 1, 2]), Some(4));
    assert_eq!(max_number(&[2, 9, 9, 0]), Some(9));
}

#[test]
fn distinct_numbers_of_codes() {
    assert!(distinct_numbers(&[]));
    assert!(distinct_numbers(&[1, 2, 4]));
    assert!(!distinct_numbers(&[1, 2, 1]));
    assert!(!distinct_numbers(&[5, 5]));
}

#[test]
fn check_numbering_of_codes() {
    assert!(check_numbering(&[1, 3], 3));
    assert!(check_numbering(&[1, 2, 4], 4));
    assert!(check_numbering(&[0, 1, 2, 3], 3));
    assert!(!check_numbering(&[1, 3], 4));
    assert!(!check_numbering(&[1, 3], 2));
    assert!(!check_numbering(&[1, 3, 3], 3));
    assert!(!check_numbering(&[], 0));
}
