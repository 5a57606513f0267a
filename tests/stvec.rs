use riscv::register::stvec::{encode, Stvec, TrapMode};

#[test]
fn encode_vectored_sets_low_bit() {
    let a: usize = 0x8000_0100;
    assert_eq!(encode(a, TrapMode::Vectored), a | 1);
    assert_eq!(encode(a, TrapMode::Vectored), 0x8000_0101);
}

#[test]
fn encode_direct_keeps_address() {
    let a: usize = 0x8000_0100;
    assert_eq!(encode(a, TrapMode::Direct), a);
}

#[test]
fn decode_vectored_word() {
    let s = Stvec::from_bits(0x8000_0101);
    assert_eq!(s.bits(), 0x8000_0101);
    assert_eq!(s.address(), 0x8000_0100);
    assert_eq!(s.trap_mode(), TrapMode::Vectored);
}

#[test]
fn decode_direct_word() {
    let s = Stvec::from_bits(0x2000);
    assert_eq!(s.address(), 0x2000);
    assert_eq!(s.trap_mode(), TrapMode::Direct);
}

#[test]
fn address_clears_reserved_low_bits() {
    let s = Stvec::from_bits(0x1003);
    assert_eq!(s.address(), 0x1000);
    assert_eq!(s.bits(), 0x1003);
}

#[test]
fn encode_then_decode_round_trips() {
    for a in [0usize, 4, 0x100, usize::MAX - 3] {
        for m in [TrapMode::Direct, TrapMode::Vectored] {
            let s = Stvec::from_bits(encode(a, m));
            assert_eq!(s.address(), a);
            assert_eq!(s.trap_mode(), m);
        }
    }
}

#[test]
fn writing_back_what_was_read_keeps_the_word() {
    for bits in [0usize, 1, 0x8000_0100, 0x8000_0101, usize::MAX - 2] {
        let s = Stvec::from_bits(bits);
        let written = encode(s.address(), s.trap_mode());
        assert_eq!(written, bits);
        let again = Stvec::from_bits(written);
        assert_eq!(again.address(), s.address());
        assert_eq!(again.trap_mode(), s.trap_mode());
    }
}
