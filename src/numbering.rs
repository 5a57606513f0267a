//! Numbering contracts: each one ties a closed set of symbols to raw codes,
//! one code per symbol, none above the contract's highest number.
//!
//! The obligations that keep hardware dispatch (by raw code) and software
//! dispatch (by symbol) in agreement are proof functions of each trait, so an
//! implementation is accepted only once they are proved for it.
use vstd::prelude::*;

verus! {

/// Trait for enums of target-specific exception numbers.
///
/// Each variant converts to a `u16` of its exception number. Distinct variants
/// have distinct numbers, none above `MAX_EXCEPTION_NUMBER`, and some variant
/// has exactly that number.
pub trait ExceptionNumber: Copy {
    /// Highest number assigned to an exception.
    const MAX_EXCEPTION_NUMBER: u16;

    /// Exception number of a variant.
    spec fn spec_number(self) -> u16;

    /// Highest number assigned to an exception, in specifications.
    spec fn spec_max() -> u16;

    /// The constant and its specification agree.
    proof fn lemma_max_constant()
        ensures
            Self::MAX_EXCEPTION_NUMBER == Self::spec_max(),
    ;

    /// No two distinct variants share a number.
    proof fn lemma_number_injective(a: Self, b: Self)
        ensures
            a.spec_number() == b.spec_number() ==> a == b,
    ;

    /// No variant has a number above the highest one.
    proof fn lemma_number_bounded(v: Self)
        ensures
            v.spec_number() <= Self::spec_max(),
    ;

    /// Some variant has the highest number.
    proof fn lemma_max_attained()
        ensures
            exists|v: Self| v.spec_number() == Self::spec_max(),
    ;

    /// Converts an exception to its corresponding number.
    fn number(self) -> (r: u16)
        ensures
            r == self.spec_number(),
    ;

    /// Tries to convert a number to a valid exception.
    /// If the conversion fails, it returns an error with the number back.
    fn from_number(value: u16) -> (r: Result<Self, u16>)
        ensures
            match r {
                Ok(v) => v.spec_number() == value,
                Err(e) => e == value && forall|v: Self| #[trigger] v.spec_number() != value,
            },
    ;
}

/// `r` is what `from_number(value)` owes: the variant with that number, or
/// the number back when no variant has it.
pub open spec fn exception_decoded<T: ExceptionNumber>(value: u16, r: Result<T, u16>) -> bool {
    match r {
        Ok(v) => v.spec_number() == value,
        Err(e) => e == value && forall|v: T| #[trigger] v.spec_number() != value,
    }
}

/// Decoding the number of a variant gives that variant back: every result
/// that `from_number(v.number())` may return under its contract is `Ok(v)`.
pub proof fn lemma_exception_round_trip<T: ExceptionNumber>(v: T, r: Result<T, u16>)
    requires
        exception_decoded(v.spec_number(), r),
    ensures
        r == Ok::<T, u16>(v),
{
    if let Ok(w) = r {
        T::lemma_number_injective(v, w);
    }
}

/// A number at most the highest one that no variant has (a gap) is rejected
/// and handed back unchanged.
pub proof fn lemma_exception_gap_rejected<T: ExceptionNumber>(c: u16, r: Result<T, u16>)
    requires
        c <= T::spec_max(),
        forall|v: T| #[trigger] v.spec_number() != c,
        exception_decoded(c, r),
    ensures
        r == Err::<T, u16>(c),
{
}

/// A number above the highest one is rejected and handed back unchanged.
pub proof fn lemma_exception_above_max_rejected<T: ExceptionNumber>(c: u16, r: Result<T, u16>)
    requires
        c > T::spec_max(),
        exception_decoded(c, r),
    ensures
        r == Err::<T, u16>(c),
{
    if let Ok(w) = r {
        T::lemma_number_bounded(w);
    }
}

/// The highest number is exactly the largest number of any variant: no
/// variant is above it and some variant has it.
pub proof fn lemma_exception_max_is_maximum<T: ExceptionNumber>()
    ensures
        T::MAX_EXCEPTION_NUMBER == T::spec_max(),
        forall|v: T| #[trigger] v.spec_number() <= T::spec_max(),
        exists|v: T| #[trigger] v.spec_number() == T::spec_max(),
{
    T::lemma_max_constant();
    T::lemma_max_attained();
    assert forall|v: T| #[trigger] v.spec_number() <= T::spec_max() by {
        T::lemma_number_bounded(v);
    }
}

/// Trait for enums of target-specific interrupt numbers.
///
/// Each variant converts to a `u16` of its interrupt number. Distinct variants
/// have distinct numbers, none above `MAX_INTERRUPT_NUMBER`, and some variant
/// has exactly that number.
pub trait InterruptNumber: Copy {
    /// Highest number assigned to an interrupt source.
    const MAX_INTERRUPT_NUMBER: u16;

    /// Interrupt number of a variant.
    spec fn spec_number(self) -> u16;

    /// Highest number assigned to an interrupt source, in specifications.
    spec fn spec_max() -> u16;

    /// The constant and its specification agree.
    proof fn lemma_max_constant()
        ensures
            Self::MAX_INTERRUPT_NUMBER == Self::spec_max(),
    ;

    /// No two distinct variants share a number.
    proof fn lemma_number_injective(a: Self, b: Self)
        ensures
            a.spec_number() == b.spec_number() ==> a == b,
    ;

    /// No variant has a number above the highest one.
    proof fn lemma_number_bounded(v: Self)
        ensures
            v.spec_number() <= Self::spec_max(),
    ;

    /// Some variant has the highest number.
    proof fn lemma_max_attained()
        ensures
            exists|v: Self| v.spec_number() == Self::spec_max(),
    ;

    /// Converts an interrupt source to its corresponding number.
    fn number(self) -> (r: u16)
        ensures
            r == self.spec_number(),
    ;

    /// Tries to convert a number to a valid interrupt source.
    /// If the conversion fails, it returns an error with the number back.
    fn from_number(value: u16) -> (r: Result<Self, u16>)
        ensures
            match r {
                Ok(v) => v.spec_number() == value,
                Err(e) => e == value && forall|v: Self| #[trigger] v.spec_number() != value,
            },
    ;
}

/// `r` is what `from_number(value)` owes: the variant with that number, or
/// the number back when no variant has it.
pub open spec fn interrupt_decoded<T: InterruptNumber>(value: u16, r: Result<T, u16>) -> bool {
    match r {
        Ok(v) => v.spec_number() == value,
        Err(e) => e == value && forall|v: T| #[trigger] v.spec_number() != value,
    }
}

/// Decoding the number of a variant gives that variant back: every result
/// that `from_number(v.number())` may return under its contract is `Ok(v)`.
pub proof fn lemma_interrupt_round_trip<T: InterruptNumber>(v: T, r: Result<T, u16>)
    requires
        interrupt_decoded(v.spec_number(), r),
    ensures
        r == Ok::<T, u16>(v),
{
    if let Ok(w) = r {
        T::lemma_number_injective(v, w);
    }
}

/// A number at most the highest one that no variant has (a gap) is rejected
/// and handed back unchanged.
pub proof fn lemma_interrupt_gap_rejected<T: InterruptNumber>(c: u16, r: Result<T, u16>)
    requires
        c <= T::spec_max(),
        forall|v: T| #[trigger] v.spec_number() != c,
        interrupt_decoded(c, r),
    ensures
        r == Err::<T, u16>(c),
{
}

/// A number above the highest one is rejected and handed back unchanged.
pub proof fn lemma_interrupt_above_max_rejected<T: InterruptNumber>(c: u16, r: Result<T, u16>)
    requires
        c > T::spec_max(),
        interrupt_decoded(c, r),
    ensures
        r == Err::<T, u16>(c),
{
    if let Ok(w) = r {
        T::lemma_number_bounded(w);
    }
}

/// The highest number is exactly the largest number of any variant: no
/// variant is above it and some variant has it.
pub proof fn lemma_interrupt_max_is_maximum<T: InterruptNumber>()
    ensures
        T::MAX_INTERRUPT_NUMBER == T::spec_max(),
        forall|v: T| #[trigger] v.spec_number() <= T::spec_max(),
        exists|v: T| #[trigger] v.spec_number() == T::spec_max(),
{
    T::lemma_max_constant();
    T::lemma_max_attained();
    assert forall|v: T| #[trigger] v.spec_number() <= T::spec_max() by {
        T::lemma_number_bounded(v);
    }
}

/// Trait for enums of target-specific core interrupt numbers.
///
/// Core interrupts are retrieved from the `mcause` CSR; this marker adds no
/// operation to [`InterruptNumber`].
pub trait CoreInterruptNumber: InterruptNumber {}

/// Trait for enums of target-specific external interrupt numbers.
///
/// External interrupts are multiplexed by a peripheral such as the PLIC and are
/// not retrieved from the `mcause` CSR; this marker adds no operation to
/// [`InterruptNumber`].
pub trait ExternalInterruptNumber: InterruptNumber {}

/// Trait for enums of target-specific priority levels.
///
/// Each variant converts to a `u8` of its priority level. Distinct variants
/// have distinct numbers, none above `MAX_PRIORITY_NUMBER`, and some variant
/// has exactly that number.
pub trait PriorityNumber: Copy {
    /// Highest number assigned to a priority level.
    const MAX_PRIORITY_NUMBER: u8;

    /// Priority level of a variant.
    spec fn spec_number(self) -> u8;

    /// Highest number assigned to a priority level, in specifications.
    spec fn spec_max() -> u8;

    /// The constant and its specification agree.
    proof fn lemma_max_constant()
        ensures
            Self::MAX_PRIORITY_NUMBER == Self::spec_max(),
    ;

    /// No two distinct variants share a number.
    proof fn lemma_number_injective(a: Self, b: Self)
        ensures
            a.spec_number() == b.spec_number() ==> a == b,
    ;

    /// No variant has a number above the highest one.
    proof fn lemma_number_bounded(v: Self)
        ensures
            v.spec_number() <= Self::spec_max(),
    ;

    /// Some variant has the highest number.
    proof fn lemma_max_attained()
        ensures
            exists|v: Self| v.spec_number() == Self::spec_max(),
    ;

    /// Converts a priority level to its corresponding number.
    fn number(self) -> (r: u8)
        ensures
            r == self.spec_number(),
    ;

    /// Tries to convert a number to a valid priority level.
    /// If the conversion fails, it returns an error with the number back.
    fn from_number(value: u8) -> (r: Result<Self, u8>)
        ensures
            match r {
                Ok(v) => v.spec_number() == value,
                Err(e) => e == value && forall|v: Self| #[trigger] v.spec_number() != value,
            },
    ;
}

/// `r` is what `from_number(value)` owes: the variant with that number, or
/// the number back when no variant has it.
pub open spec fn priority_decoded<T: PriorityNumber>(value: u8, r: Result<T, u8>) -> bool {
    match r {
        Ok(v) => v.spec_number() == value,
        Err(e) => e == value && forall|v: T| #[trigger] v.spec_number() != value,
    }
}

/// Decoding the number of a variant gives that variant back: every result
/// that `from_number(v.number())` may return under its contract is `Ok(v)`.
pub proof fn lemma_priority_round_trip<T: PriorityNumber>(v: T, r: Result<T, u8>)
    requires
        priority_decoded(v.spec_number(), r),
    ensures
        r == Ok::<T, u8>(v),
{
    if let Ok(w) = r {
        T::lemma_number_injective(v, w);
    }
}

/// A number at most the highest one that no variant has (a gap) is rejected
/// and handed back unchanged.
pub proof fn lemma_priority_gap_rejected<T: PriorityNumber>(c: u8, r: Result<T, u8>)
    requires
        c <= T::spec_max(),
        forall|v: T| #[trigger] v.spec_number() != c,
        priority_decoded(c, r),
    ensures
        r == Err::<T, u8>(c),
{
}

/// A number above the highest one is rejected and handed back unchanged.
pub proof fn lemma_priority_above_max_rejected<T: PriorityNumber>(c: u8, r: Result<T, u8>)
    requires
        c > T::spec_max(),
        priority_decoded(c, r),
    ensures
        r == Err::<T, u8>(c),
{
    if let Ok(w) = r {
        T::lemma_number_bounded(w);
    }
}

/// The highest number is exactly the largest number of any variant: no
/// variant is above it and some variant has it.
pub proof fn lemma_priority_max_is_maximum<T: PriorityNumber>()
    ensures
        T::MAX_PRIORITY_NUMBER == T::spec_max(),
        forall|v: T| #[trigger] v.spec_number() <= T::spec_max(),
        exists|v: T| #[trigger] v.spec_number() == T::spec_max(),
{
    T::lemma_max_constant();
    T::lemma_max_attained();
    assert forall|v: T| #[trigger] v.spec_number() <= T::spec_max() by {
        T::lemma_number_bounded(v);
    }
}

/// Trait for enums of target-specific HART ID numbers.
///
/// Each variant converts to a `u16` of its HART ID number. Distinct variants
/// have distinct numbers, none above `MAX_HART_ID_NUMBER`, and some variant
/// has exactly that number.
pub trait HartIdNumber: Copy {
    /// Highest number assigned to a HART ID.
    const MAX_HART_ID_NUMBER: u16;

    /// HART ID number of a variant.
    spec fn spec_number(self) -> u16;

    /// Highest number assigned to a HART ID, in specifications.
    spec fn spec_max() -> u16;

    /// The constant and its specification agree.
    proof fn lemma_max_constant()
        ensures
            Self::MAX_HART_ID_NUMBER == Self::spec_max(),
    ;

    /// No two distinct variants share a number.
    proof fn lemma_number_injective(a: Self, b: Self)
        ensures
            a.spec_number() == b.spec_number() ==> a == b,
    ;

    /// No variant has a number above the highest one.
    proof fn lemma_number_bounded(v: Self)
        ensures
            v.spec_number() <= Self::spec_max(),
    ;

    /// Some variant has the highest number.
    proof fn lemma_max_attained()
        ensures
            exists|v: Self| v.spec_number() == Self::spec_max(),
    ;

    /// Converts a HART ID to its corresponding number.
    fn number(self) -> (r: u16)
        ensures
            r == self.spec_number(),
    ;

    /// Tries to convert a number to a valid HART ID.
    /// If the conversion fails, it returns an error with the number back.
    fn from_number(value: u16) -> (r: Result<Self, u16>)
        ensures
            match r {
                Ok(v) => v.spec_number() == value,
                Err(e) => e == value && forall|v: Self| #[trigger] v.spec_number() != value,
            },
    ;
}

/// `r` is what `from_number(value)` owes: the variant with that number, or
/// the number back when no variant has it.
pub open spec fn hart_id_decoded<T: HartIdNumber>(value: u16, r: Result<T, u16>) -> bool {
    match r {
        Ok(v) => v.spec_number() == value,
        Err(e) => e == value && forall|v: T| #[trigger] v.spec_number() != value,
    }
}

/// Decoding the number of a variant gives that variant back: every result
/// that `from_number(v.number())` may return under its contract is `Ok(v)`.
pub proof fn lemma_hart_id_round_trip<T: HartIdNumber>(v: T, r: Result<T, u16>)
    requires
        hart_id_decoded(v.spec_number(), r),
    ensures
        r == Ok::<T, u16>(v),
{
    if let Ok(w) = r {
        T::lemma_number_injective(v, w);
    }
}

/// A number at most the highest one that no variant has (a gap) is rejected
/// and handed back unchanged.
pub proof fn lemma_hart_id_gap_rejected<T: HartIdNumber>(c: u16, r: Result<T, u16>)
    requires
        c <= T::spec_max(),
        forall|v: T| #[trigger] v.spec_number() != c,
        hart_id_decoded(c, r),
    ensures
        r == Err::<T, u16>(c),
{
}

/// A number above the highest one is rejected and handed back unchanged.
pub proof fn lemma_hart_id_above_max_rejected<T: HartIdNumber>(c: u16, r: Result<T, u16>)
    requires
        c > T::spec_max(),
        hart_id_decoded(c, r),
    ensures
        r == Err::<T, u16>(c),
{
    if let Ok(w) = r {
        T::lemma_number_bounded(w);
    }
}

/// The highest number is exactly the largest number of any variant: no
/// variant is above it and some variant has it.
pub proof fn lemma_hart_id_max_is_maximum<T: HartIdNumber>()
    ensures
        T::MAX_HART_ID_NUMBER == T::spec_max(),
        forall|v: T| #[trigger] v.spec_number() <= T::spec_max(),
        exists|v: T| #[trigger] v.spec_number() == T::spec_max(),
{
    T::lemma_max_constant();
    T::lemma_max_attained();
    assert forall|v: T| #[trigger] v.spec_number() <= T::spec_max() by {
        T::lemma_number_bounded(v);
    }
}
/// The codes are pairwise distinct.
pub open spec fn codes_distinct(codes: Seq<u16>) -> bool {
    forall|i: int, j: int| 0 <= i < j < codes.len() ==> codes[i] != codes[j]
}

/// `m` is the largest of the codes.
pub open spec fn is_max_code(codes: Seq<u16>, m: u16) -> bool {
    &&& codes.contains(m)
    &&& forall|i: int| 0 <= i < codes.len() ==> codes[i] <= m
}

/// The codes, one per declared variant, form a numbering whose highest
/// number is `max`: no code repeats and `max` is the largest code.
pub open spec fn valid_numbering(codes: Seq<u16>, max: u16) -> bool {
    codes_distinct(codes) && is_max_code(codes, max)
}

/// Highest of the codes of a declared variant set, or `None` when the set is
/// empty.
pub fn max_number(codes: &[u16]) -> (r: Option<u16>)
    ensures
        match r {
            None => codes@.len() == 0,
            Some(m) => is_max_code(codes@, m),
        },
{
    if codes.len() == 0 {
        return None;
    }
    let mut m: u16 = codes[0];
    let mut k: usize = 1;
    assert(codes@.subrange(0, 1)[0] == m);
    while k < codes.len()
        invariant
            1 <= k <= codes@.len(),
            codes@.subrange(0, k as int).contains(m),
            forall|i: int| 0 <= i < k ==> codes@[i] <= m,
        decreases codes@.len() - k,
    {
        if codes[k] > m {
            m = codes[k];
            assert(codes@.subrange(0, k + 1)[k as int] == m);
        } else {
            proof {
                let w = choose|i: int| 0 <= i < k && codes@.subrange(0, k as int)[i] == m;
                assert(codes@.subrange(0, k + 1)[w] == m);
            }
        }
        k = k + 1;
    }
    assert(codes@.subrange(0, k as int) =~= codes@);
    Some(m)
}

/// Whether no code of the set repeats.
pub fn distinct_numbers(codes: &[u16]) -> (r: bool)
    ensures
        r == codes_distinct(codes@),
{
    let mut j: usize = 0;
    while j < codes.len()
        invariant
            j <= codes@.len(),
            forall|a: int, b: int| 0 <= a < b < j ==> codes@[a] != codes@[b],
        decreases codes@.len() - j,
    {
        let mut i: usize = 0;
        while i < j
            invariant
                i <= j < codes@.len(),
                forall|a: int| 0 <= a < i ==> codes@[a] != codes@[j as int],
            decreases j - i,
        {
            if codes[i] == codes[j] {
                return false;
            }
            i = i + 1;
        }
        j = j + 1;
    }
    true
}

/// Whether the codes of a declared variant set, one per variant, meet a
/// numbering contract with highest number `max`: no code repeats and `max`
/// is exactly the largest code.
pub fn check_numbering(codes: &[u16], max: u16) -> (r: bool)
    ensures
        r == valid_numbering(codes@, max),
{
    if !distinct_numbers(codes) {
        return false;
    }
    match max_number(codes) {
        None => false,
        Some(m) => {
            if m == max {
                true
            } else {
                proof {
                    if is_max_code(codes@, max) {
                        let w = choose|i: int| 0 <= i < codes@.len() && codes@[i] == max;
                        let v = choose|i: int| 0 <= i < codes@.len() && codes@[i] == m;
                        assert(codes@[w] <= m && codes@[v] <= max);
                    }
                }
                false
            }
        },
    }
}

} // verus!
