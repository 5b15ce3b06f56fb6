//! The register file and the fields packed into the status word.

use crate::error::CycleError;
use vstd::prelude::*;
use vstd::std_specs::convert::TryFromSpecImpl;

verus! {

/// The name of a storage slot of the register file.
#[derive(Clone, Copy, Debug, PartialEq, Eq, Structural)]
pub enum R {
    _0,
    _1,
    _2,
    _3,
    _4,
    _5,
    _6,
    _7,
    PC,
    PSR,
}

impl R {
    /// The position of the slot in the register file.
    pub open spec fn index(self) -> int {
        match self {
            R::_0 => 0,
            R::_1 => 1,
            R::_2 => 2,
            R::_3 => 3,
            R::_4 => 4,
            R::_5 => 5,
            R::_6 => 6,
            R::_7 => 7,
            R::PC => 8,
            R::PSR => 9,
        }
    }

    /// The slot at position `i`, if there is one.
    pub open spec fn at(i: int) -> Option<R> {
        if i == 0 {
            Some(R::_0)
        } else if i == 1 {
            Some(R::_1)
        } else if i == 2 {
            Some(R::_2)
        } else if i == 3 {
            Some(R::_3)
        } else if i == 4 {
            Some(R::_4)
        } else if i == 5 {
            Some(R::_5)
        } else if i == 6 {
            Some(R::_6)
        } else if i == 7 {
            Some(R::_7)
        } else if i == 8 {
            Some(R::PC)
        } else if i == 9 {
            Some(R::PSR)
        } else {
            None
        }
    }

    /// The position of the slot, for indexing.
    pub fn slot(self) -> (i: usize)
        ensures
            i == self.index(),
            i < 10,
    {
        match self {
            R::_0 => 0,
            R::_1 => 1,
            R::_2 => 2,
            R::_3 => 3,
            R::_4 => 4,
            R::_5 => 5,
            R::_6 => 6,
            R::_7 => 7,
            R::PC => 8,
            R::PSR => 9,
        }
    }

    /// Positions and names correspond one to one.
    pub proof fn lemma_index_at(self)
        ensures
            0 <= self.index() < 10,
            R::at(self.index()) == Some(self),
    {
    }
}

impl TryFrom<u16> for R {
    type Error = CycleError;

    /// The register with index `val`; an index above 9 names none.
    fn try_from(val: u16) -> (res: Result<R, CycleError>) {
        match val {
            0 => Ok(R::_0),
            1 => Ok(R::_1),
            2 => Ok(R::_2),
            3 => Ok(R::_3),
            4 => Ok(R::_4),
            5 => Ok(R::_5),
            6 => Ok(R::_6),
            7 => Ok(R::_7),
            8 => Ok(R::PC),
            9 => Ok(R::PSR),
            _ => Err(CycleError::RegisterIndex(val)),
        }
    }
}

impl TryFromSpecImpl<u16> for R {
    open spec fn obeys_try_from_spec() -> bool {
        true
    }

    open spec fn try_from_spec(val: u16) -> Result<R, CycleError> {
        match R::at(val as int) {
            Some(r) => Ok(r),
            None => Err(CycleError::RegisterIndex(val)),
        }
    }
}

/// The condition code: the sign of the value last written to a result register.
#[derive(Clone, Copy, Debug, PartialEq, Eq, Structural)]
pub enum Flag {
    Positive,
    Zero,
    Negative,
}

impl Flag {
    /// The pattern of the flag in bits 2 to 0 of the status word.
    pub open spec fn bits(self) -> u16 {
        match self {
            Flag::Positive => 1,
            Flag::Zero => 2,
            Flag::Negative => 4,
        }
    }

    /// The flag that bits 2 to 0 of `psr` hold, if exactly one of them is set.
    pub open spec fn decode(psr: u16) -> Option<Flag> {
        if psr & 7 == 1 {
            Some(Flag::Positive)
        } else if psr & 7 == 2 {
            Some(Flag::Zero)
        } else if psr & 7 == 4 {
            Some(Flag::Negative)
        } else {
            None
        }
    }

    /// The condition code of a word read as a two's-complement number.
    pub open spec fn of_value(val: u16) -> Flag {
        if val == 0 {
            Flag::Zero
        } else if val >= 0x8000 {
            Flag::Negative
        } else {
            Flag::Positive
        }
    }

    /// The pattern of the flag in bits 2 to 0 of the status word.
    pub fn mask(self) -> (b: u16)
        ensures
            b == self.bits(),
    {
        match self {
            Flag::Positive => 1,
            Flag::Zero => 2,
            Flag::Negative => 4,
        }
    }
}

impl TryFrom<u16> for Flag {
    type Error = CycleError;

    /// The flag held by the low three bits of the status word `val`.
    fn try_from(val: u16) -> (res: Result<Flag, CycleError>) {
        let b: u16 = val & 7;
        if b == 1 {
            Ok(Flag::Positive)
        } else if b == 2 {
            Ok(Flag::Zero)
        } else if b == 4 {
            Ok(Flag::Negative)
        } else {
            Err(CycleError::StatusWord(b))
        }
    }
}

impl TryFromSpecImpl<u16> for Flag {
    open spec fn obeys_try_from_spec() -> bool {
        true
    }

    open spec fn try_from_spec(val: u16) -> Result<Flag, CycleError> {
        match Flag::decode(val) {
            Some(f) => Ok(f),
            None => Err(CycleError::StatusWord(val & 7)),
        }
    }
}

/// A priority level.
#[derive(Clone, Copy, Debug, PartialEq, Eq, Structural)]
pub enum PL {
    _0,
    _1,
    _2,
    _3,
    _4,
    _5,
    _6,
    _7,
}

impl PL {
    /// The number of the level.
    pub open spec fn level(self) -> u16 {
        match self {
            PL::_0 => 0,
            PL::_1 => 1,
            PL::_2 => 2,
            PL::_3 => 3,
            PL::_4 => 4,
            PL::_5 => 5,
            PL::_6 => 6,
            PL::_7 => 7,
        }
    }

    /// The level with number `n`; level 7 for any number above 7.
    pub open spec fn at(n: int) -> PL {
        if n <= 0 {
            PL::_0
        } else if n == 1 {
            PL::_1
        } else if n == 2 {
            PL::_2
        } else if n == 3 {
            PL::_3
        } else if n == 4 {
            PL::_4
        } else if n == 5 {
            PL::_5
        } else if n == 6 {
            PL::_6
        } else {
            PL::_7
        }
    }

    /// The level that bits 9 to 7 of `psr` hold.
    pub open spec fn decode(psr: u16) -> PL {
        PL::at(((psr >> 7) & 7) as int)
    }

    /// The number of the level.
    pub fn number(self) -> (n: u16)
        ensures
            n == self.level(),
            n < 8,
    {
        match self {
            PL::_0 => 0,
            PL::_1 => 1,
            PL::_2 => 2,
            PL::_3 => 3,
            PL::_4 => 4,
            PL::_5 => 5,
            PL::_6 => 6,
            PL::_7 => 7,
        }
    }
}

impl TryFrom<u16> for PL {
    type Error = CycleError;

    /// The priority level held by bits 9 to 7 of the status word `val`.
    fn try_from(val: u16) -> (res: Result<PL, CycleError>) {
        let n: u16 = (val >> 7) & 7;
        assert(((val >> 7) & 7) < 8) by (bit_vector);
        match n {
            0 => Ok(PL::_0),
            1 => Ok(PL::_1),
            2 => Ok(PL::_2),
            3 => Ok(PL::_3),
            4 => Ok(PL::_4),
            5 => Ok(PL::_5),
            6 => Ok(PL::_6),
            _ => Ok(PL::_7),
        }
    }
}

impl TryFromSpecImpl<u16> for PL {
    open spec fn obeys_try_from_spec() -> bool {
        true
    }

    open spec fn try_from_spec(val: u16) -> Result<PL, CycleError> {
        Ok(PL::decode(val))
    }
}

/// The execution mode.
#[derive(Clone, Copy, Debug, PartialEq, Eq, Structural)]
pub enum Mode {
    Privilege,
    User,
}

impl Mode {
    /// Bit 15 of the status word in this mode, as 0 or 1.
    pub open spec fn top_bit(self) -> u16 {
        match self {
            Mode::Privilege => 0,
            Mode::User => 1,
        }
    }

    /// The mode that bit 15 of `psr` holds.
    pub open spec fn decode(psr: u16) -> Mode {
        if psr < 0x8000 {
            Mode::Privilege
        } else {
            Mode::User
        }
    }

    /// Bit 15 of the status word in this mode, as 0 or 1.
    pub fn number(self) -> (n: u16)
        ensures
            n == self.top_bit(),
    {
        match self {
            Mode::Privilege => 0,
            Mode::User => 1,
        }
    }
}

impl TryFrom<u16> for Mode {
    type Error = CycleError;

    /// The mode held by bit 15 of the status word `val`.
    fn try_from(val: u16) -> (res: Result<Mode, CycleError>) {
        assert((val >> 15) == 0 <==> val < 0x8000) by (bit_vector);
        if val >> 15 == 0 {
            Ok(Mode::Privilege)
        } else {
            Ok(Mode::User)
        }
    }
}

impl TryFromSpecImpl<u16> for Mode {
    open spec fn obeys_try_from_spec() -> bool {
        true
    }

    open spec fn try_from_spec(val: u16) -> Result<Mode, CycleError> {
        Ok(Mode::decode(val))
    }
}

/// The status word `psr` with its condition bits replaced by those of `f`.
pub open spec fn with_flag(psr: u16, f: Flag) -> u16 {
    psr & 0xfff8 | f.bits()
}

/// The status word `psr` with its priority bits replaced by those of `lv`.
pub open spec fn with_level(psr: u16, lv: PL) -> u16 {
    psr & 0xfc7f | (lv.level() << 7)
}

/// The status word `psr` with its mode bit replaced by that of `m`.
pub open spec fn with_mode(psr: u16, m: Mode) -> u16 {
    psr & 0x7fff | (m.top_bit() << 15)
}

/// Setting the flag makes it the flag read back, and leaves the priority
/// level and the mode as they were.
pub proof fn lemma_with_flag(psr: u16, f: Flag)
    ensures
        Flag::decode(with_flag(psr, f)) == Some(f),
        PL::decode(with_flag(psr, f)) == PL::decode(psr),
        Mode::decode(with_flag(psr, f)) == Mode::decode(psr),
        with_flag(psr, f) & 0xfff8 == psr & 0xfff8,
{
    let b = f.bits();
    assert(b == 1 || b == 2 || b == 4);
    let w: u16 = psr & 0xfff8 | b;
    assert((b == 1 || b == 2 || b == 4) ==> w & 7 == b && (w >> 7) & 7 == (psr >> 7) & 7 && (w
        < 0x8000 <==> psr < 0x8000) && w & 0xfff8 == psr & 0xfff8) by (bit_vector)
        requires
            w == psr & 0xfff8 | b,
    ;
}

/// Setting the priority level makes it the level read back, and leaves the
/// flag and the mode as they were.
pub proof fn lemma_with_level(psr: u16, lv: PL)
    ensures
        PL::decode(with_level(psr, lv)) == lv,
        Flag::decode(with_level(psr, lv)) == Flag::decode(psr),
        Mode::decode(with_level(psr, lv)) == Mode::decode(psr),
        with_level(psr, lv) & 0xfc7f == psr & 0xfc7f,
{
    let n = lv.level();
    let w: u16 = psr & 0xfc7f | (n << 7);
    assert(n < 8 ==> (w >> 7) & 7 == n && w & 7 == psr & 7 && (w < 0x8000 <==> psr < 0x8000) && w
        & 0xfc7f == psr & 0xfc7f) by (bit_vector)
        requires
            w == psr & 0xfc7f | (n << 7),
    ;
}

/// Setting the mode makes it the mode read back, and leaves the flag and
/// the priority level as they were.
pub proof fn lemma_with_mode(psr: u16, m: Mode)
    ensures
        Mode::decode(with_mode(psr, m)) == m,
        Flag::decode(with_mode(psr, m)) == Flag::decode(psr),
        PL::decode(with_mode(psr, m)) == PL::decode(psr),
        with_mode(psr, m) & 0x7fff == psr & 0x7fff,
{
    let n = m.top_bit();
    let w: u16 = psr & 0x7fff | (n << 15);
    assert(n < 2 ==> (w < 0x8000 <==> n == 0) && w & 7 == psr & 7 && (w >> 7) & 7 == (psr >> 7) & 7
        && w & 0x7fff == psr & 0x7fff) by (bit_vector)
        requires
            w == psr & 0x7fff | (n << 15),
    ;
}

/// The register file after the flag has been recomputed from slot `r`:
/// the condition bits of the status word name the sign of that slot's value.
pub open spec fn flag_updated(regs: Seq<u16>, r: R) -> Seq<u16> {
    regs.update(
        R::PSR.index(),
        with_flag(regs[R::PSR.index()], Flag::of_value(regs[r.index()])),
    )
}

/// The sum of two words, modulo 2^16.
pub open spec fn wrapping_sum(a: u16, b: u16) -> u16 {
    ((a + b) % 0x10000) as u16
}

/// Ten words: the general-purpose registers, the program counter and the
/// status word. Its view lists them by `R::index`.
pub struct Register {
    slots: [u16; 10],
}

impl View for Register {
    type V = Seq<u16>;

    closed spec fn view(&self) -> Seq<u16> {
        self.slots@
    }
}

impl Register {
    /// The value held by slot `r`.
    pub open spec fn value(&self, r: R) -> u16 {
        self@[r.index()]
    }

    /// A register file has ten slots.
    pub proof fn lemma_len(&self)
        ensures
            self@.len() == 10,
    {
    }

    /// A register file with every slot zero.
    pub fn new() -> (regs: Register)
        ensures
            regs@ == Seq::new(10, |i: int| 0u16),
    {
        let regs = Register { slots: [0u16;10] };
        assert(regs@ =~= Seq::new(10, |i: int| 0u16));
        regs
    }

    /// Stores `val` in slot `r`; the other slots keep their values.
    pub fn write(&mut self, r: R, val: u16)
        ensures
            final(self)@ == old(self)@.update(r.index(), val),
            final(self).value(r) == val,
    {
        let i: usize = r.slot();
        self.slots[i] = val;
    }

    /// The value held by slot `r`.
    pub fn read(&self, r: R) -> (val: u16)
        ensures
            val == self.value(r),
    {
        self.slots[r.slot()]
    }

    /// Returns the value of slot `r` and then adds one to the slot,
    /// wrapping at the top of the range.
    pub fn read_incr(&mut self, r: R) -> (val: u16)
        ensures
            val == old(self).value(r),
            final(self)@ == old(self)@.update(r.index(), wrapping_sum(val, 1)),
    {
        let val: u16 = self.read(r);
        self.incr(r);
        val
    }

    /// Recomputes the flag from the value of slot `r`: Zero for zero,
    /// Negative where the sign bit is set, Positive otherwise.
    pub fn update_flag(&mut self, r: R)
        ensures
            final(self)@ == flag_updated(old(self)@, r),
            Flag::decode(final(self).value(R::PSR)) == Some(Flag::of_value(old(self).value(r))),
            PL::decode(final(self).value(R::PSR)) == PL::decode(old(self).value(R::PSR)),
            Mode::decode(final(self).value(R::PSR)) == Mode::decode(old(self).value(R::PSR)),
    {
        let val: u16 = self.read(r);
        if val == 0 {
            self.set_flag(Flag::Zero);
        } else if val >= 0x8000 {
            self.set_flag(Flag::Negative);
        } else {
            self.set_flag(Flag::Positive);
        }
    }

    /// Replaces the condition bits of the status word by those of `f`.
    pub fn set_flag(&mut self, f: Flag)
        ensures
            final(self)@ == old(self)@.update(
                R::PSR.index(),
                with_flag(old(self).value(R::PSR), f),
            ),
            Flag::decode(final(self).value(R::PSR)) == Some(f),
            PL::decode(final(self).value(R::PSR)) == PL::decode(old(self).value(R::PSR)),
            Mode::decode(final(self).value(R::PSR)) == Mode::decode(old(self).value(R::PSR)),
    {
        proof {
            lemma_with_flag(self.value(R::PSR), f);
        }
        let psr: u16 = self.read(R::PSR);
        self.write(R::PSR, psr & 0xfff8 | f.mask());
    }

    /// The flag that the status word holds; an error with the condition
    /// bits where they are not exactly one of the three flags.
    pub fn get_flag(&self) -> (res: Result<Flag, CycleError>)
        ensures
            res == match Flag::decode(self.value(R::PSR)) {
                Some(f) => Ok::<Flag, CycleError>(f),
                None => Err(CycleError::StatusWord(self.value(R::PSR) & 7)),
            },
    {
        Flag::try_from(self.read(R::PSR))
    }

    /// Replaces the priority bits of the status word by those of `lv`.
    pub fn set_level(&mut self, lv: PL)
        ensures
            final(self)@ == old(self)@.update(
                R::PSR.index(),
                with_level(old(self).value(R::PSR), lv),
            ),
            PL::decode(final(self).value(R::PSR)) == lv,
            Flag::decode(final(self).value(R::PSR)) == Flag::decode(old(self).value(R::PSR)),
            Mode::decode(final(self).value(R::PSR)) == Mode::decode(old(self).value(R::PSR)),
    {
        proof {
            lemma_with_level(self.value(R::PSR), lv);
        }
        let psr: u16 = self.read(R::PSR);
        self.write(R::PSR, psr & 0xfc7f | (lv.number() << 7));
    }

    /// The priority level that the status word holds.
    pub fn get_level(&self) -> (res: Result<PL, CycleError>)
        ensures
            res == Ok::<PL, CycleError>(PL::decode(self.value(R::PSR))),
    {
        PL::try_from(self.read(R::PSR))
    }

    /// Replaces the mode bit of the status word by that of `m`.
    pub fn set_mode(&mut self, m: Mode)
        ensures
            final(self)@ == old(self)@.update(
                R::PSR.index(),
                with_mode(old(self).value(R::PSR), m),
            ),
            Mode::decode(final(self).value(R::PSR)) == m,
            Flag::decode(final(self).value(R::PSR)) == Flag::decode(old(self).value(R::PSR)),
            PL::decode(final(self).value(R::PSR)) == PL::decode(old(self).value(R::PSR)),
    {
        proof {
            lemma_with_mode(self.value(R::PSR), m);
        }
        let psr: u16 = self.read(R::PSR);
        self.write(R::PSR, psr & 0x7fff | (m.number() << 15));
    }

    /// The mode that the status word holds.
    pub fn get_mode(&self) -> (res: Result<Mode, CycleError>)
        ensures
            res == Ok::<Mode, CycleError>(Mode::decode(self.value(R::PSR))),
    {
        Mode::try_from(self.read(R::PSR))
    }

    /// Adds one to slot `r`, wrapping at the top of the range.
    pub fn incr(&mut self, r: R)
        ensures
            final(self)@ == old(self)@.update(
                r.index(),
                wrapping_sum(old(self).value(r), 1),
            ),
    {
        let val: u16 = self.read(r);
        self.write(r, val.wrapping_add(1));
    }
}

/// A value written to a slot is the value read from it, and a write leaves
/// every other slot as it was.
pub proof fn lemma_write_then_read(regs: Seq<u16>, r: R, other: R, val: u16)
    requires
        regs.len() == 10,
    ensures
        regs.update(r.index(), val)[r.index()] == val,
        other != r ==> regs.update(r.index(), val)[other.index()] == regs[other.index()],
{
}

/// Recomputing the flag from a slot leaves every slot but the status word
/// as it was, and in the status word changes the condition bits only, to
/// the sign of the slot's value.
pub proof fn lemma_flag_updated(regs: Seq<u16>, r: R, other: R)
    requires
        regs.len() == 10,
    ensures
        other != R::PSR ==> flag_updated(regs, r)[other.index()] == regs[other.index()],
        Flag::decode(flag_updated(regs, r)[R::PSR.index()]) == Some(
            Flag::of_value(regs[r.index()]),
        ),
        PL::decode(flag_updated(regs, r)[R::PSR.index()]) == PL::decode(regs[R::PSR.index()]),
        Mode::decode(flag_updated(regs, r)[R::PSR.index()]) == Mode::decode(
            regs[R::PSR.index()],
        ),
{
    lemma_with_flag(regs[R::PSR.index()], Flag::of_value(regs[r.index()]));
}

/// Recomputing the flag from a slot twice gives what recomputing it once
/// gives, unless the slot is a status word that holds zero.
pub proof fn lemma_update_flag_twice(regs: Seq<u16>, r: R)
    requires
        regs.len() == 10,
        r != R::PSR || regs[R::PSR.index()] != 0,
    ensures
        flag_updated(flag_updated(regs, r), r) == flag_updated(regs, r),
{
    let psr = regs[R::PSR.index()];
    let b = Flag::of_value(regs[r.index()]).bits();
    let w: u16 = psr & 0xfff8 | b;
    assert((b == 1 || b == 2 || b == 4) ==> w & 0xfff8 | b == w && w != 0 && (w >= 0x8000 <==> psr
        >= 0x8000)) by (bit_vector)
        requires
            w == psr & 0xfff8 | b,
    ;
    assert(flag_updated(flag_updated(regs, r), r) =~= flag_updated(regs, r));
}

} // verus!
