//! The execution engine: memory, instruction decoding and the semantics of
//! each instruction, stated over a mathematical model of the machine.

use crate::bit;
use crate::bit_of;
use crate::error::CycleError;
use crate::lemma_reg_field;
use crate::reg_1st;
use crate::reg_2nd;
use crate::reg_field;
use crate::register::flag_updated;
use crate::register::lemma_flag_updated;
use crate::register::wrapping_sum;
use crate::register::Flag;
use crate::register::PL;
use crate::register::Mode;
use crate::register::Register;
use crate::register::R;
use crate::sign_extend;
use crate::sign_extended;
use vstd::prelude::*;
use vstd::std_specs::convert::TryFromSpecImpl;

verus! {

/// What one execution step reports.
pub type CycleResult = Result<(), CycleError>;

/// The sixteen instructions, in the order of their codes.
#[derive(Clone, Copy, Debug, PartialEq, Eq, Structural)]
pub enum OpCode {
    BR,
    ADD,
    LD,
    ST,
    JSR,
    AND,
    LDR,
    STR,
    RTI,
    NOT,
    LDI,
    STI,
    JMP,
    RES,
    LEA,
    TRAP,
}

impl OpCode {
    /// The instruction with code `n`, if there is one.
    pub open spec fn at(n: int) -> Option<OpCode> {
        if n == 0 {
            Some(OpCode::BR)
        } else if n == 1 {
            Some(OpCode::ADD)
        } else if n == 2 {
            Some(OpCode::LD)
        } else if n == 3 {
            Some(OpCode::ST)
        } else if n == 4 {
            Some(OpCode::JSR)
        } else if n == 5 {
            Some(OpCode::AND)
        } else if n == 6 {
            Some(OpCode::LDR)
        } else if n == 7 {
            Some(OpCode::STR)
        } else if n == 8 {
            Some(OpCode::RTI)
        } else if n == 9 {
            Some(OpCode::NOT)
        } else if n == 10 {
            Some(OpCode::LDI)
        } else if n == 11 {
            Some(OpCode::STI)
        } else if n == 12 {
            Some(OpCode::JMP)
        } else if n == 13 {
            Some(OpCode::RES)
        } else if n == 14 {
            Some(OpCode::LEA)
        } else if n == 15 {
            Some(OpCode::TRAP)
        } else {
            None
        }
    }

    /// The instruction that the top four bits of `instr` name.
    pub open spec fn of(instr: u16) -> OpCode {
        OpCode::at((instr >> 12) as int).unwrap()
    }
}

impl TryFrom<u16> for OpCode {
    type Error = CycleError;

    /// The instruction with code `val`; a code above 15 names none.
    fn try_from(val: u16) -> (res: Result<OpCode, CycleError>) {
        match val {
            0 => Ok(OpCode::BR),
            1 => Ok(OpCode::ADD),
            2 => Ok(OpCode::LD),
            3 => Ok(OpCode::ST),
            4 => Ok(OpCode::JSR),
            5 => Ok(OpCode::AND),
            6 => Ok(OpCode::LDR),
            7 => Ok(OpCode::STR),
            8 => Ok(OpCode::RTI),
            9 => Ok(OpCode::NOT),
            10 => Ok(OpCode::LDI),
            11 => Ok(OpCode::STI),
            12 => Ok(OpCode::JMP),
            13 => Ok(OpCode::RES),
            14 => Ok(OpCode::LEA),
            15 => Ok(OpCode::TRAP),
            _ => Err(CycleError::UnknownOpcode(val)),
        }
    }
}

impl TryFromSpecImpl<u16> for OpCode {
    open spec fn obeys_try_from_spec() -> bool {
        true
    }

    open spec fn try_from_spec(val: u16) -> Result<OpCode, CycleError> {
        match OpCode::at(val as int) {
            Some(op) => Ok(op),
            None => Err(CycleError::UnknownOpcode(val)),
        }
    }
}

/// The state of the machine as mathematics: the ten register slots, listed
/// by `R::index`, and the 65,536 words of memory, listed by address.
pub struct Machine {
    pub regs: Seq<u16>,
    pub mem: Seq<u16>,
}

impl Machine {
    /// The state has ten register slots and a word for every address.
    pub open spec fn wf(self) -> bool {
        self.regs.len() == 10 && self.mem.len() == 0x10000
    }

    /// The state in which every register and every word of memory is zero.
    pub open spec fn zeroed() -> Machine {
        Machine { regs: Seq::new(10, |i: int| 0u16), mem: Seq::new(0x10000, |i: int| 0u16) }
    }

    /// The value of register `r`.
    pub open spec fn reg(self, r: R) -> u16 {
        self.regs[r.index()]
    }

    /// The word at address `addr`.
    pub open spec fn load(self, addr: u16) -> u16 {
        self.mem[addr as int]
    }

    /// The state with `val` in register `r`.
    pub open spec fn set_reg(self, r: R, val: u16) -> Machine {
        Machine { regs: self.regs.update(r.index(), val), mem: self.mem }
    }

    /// The state with `val` at address `addr`.
    pub open spec fn store(self, addr: u16, val: u16) -> Machine {
        Machine { regs: self.regs, mem: self.mem.update(addr as int, val) }
    }

    /// The state with `val` in register `r` and the flag recomputed from it.
    pub open spec fn set_result(self, r: R, val: u16) -> Machine {
        Machine { regs: flag_updated(self.regs.update(r.index(), val), r), mem: self.mem }
    }

    /// The state with the program counter saved in register 7.
    pub open spec fn linked(self) -> Machine {
        self.set_reg(R::_7, self.reg(R::PC))
    }
}

/// The immediate operand in bits 4 to 0 of `instr`.
pub open spec fn imm5(instr: u16) -> u16 {
    sign_extended(instr & 0x1f, 5)
}

/// The offset in bits 5 to 0 of `instr`.
pub open spec fn offset6(instr: u16) -> u16 {
    sign_extended(instr & 0x3f, 6)
}

/// The offset in bits 8 to 0 of `instr`.
pub open spec fn offset9(instr: u16) -> u16 {
    sign_extended(instr & 0x1ff, 9)
}

/// The offset in bits 10 to 0 of `instr`.
pub open spec fn offset11(instr: u16) -> u16 {
    sign_extended(instr & 0x7ff, 11)
}

/// The address that lies the 9-bit offset of `instr` from the program counter.
pub open spec fn pc_relative(m: Machine, instr: u16) -> u16 {
    wrapping_sum(m.reg(R::PC), offset9(instr))
}

/// Whether the branch `instr` is taken under flag `f`: it names no
/// condition at all, or it names `f`.
pub open spec fn branch_taken(instr: u16, f: Option<Flag>) -> bool {
    (instr >> 9) & 7 == 0 || match f {
        Some(f) => bit_of(instr, condition_bit(f)) == 1,
        None => false,
    }
}

/// The bit of a branch instruction that names flag `f`.
pub open spec fn condition_bit(f: Flag) -> u16 {
    match f {
        Flag::Negative => 11,
        Flag::Zero => 10,
        Flag::Positive => 9,
    }
}

/// BR: the program counter moves by the offset if the branch is taken. A
/// branch that names a condition fails on a status word without a flag.
pub open spec fn after_br(m: Machine, instr: u16) -> (Machine, CycleResult) {
    let f = Flag::decode(m.reg(R::PSR));
    if (instr >> 9) & 7 != 0 && f is None {
        (m, Err(CycleError::StatusWord(m.reg(R::PSR) & 7)))
    } else if branch_taken(instr, f) {
        (m.set_reg(R::PC, pc_relative(m, instr)), Ok(()))
    } else {
        (m, Ok(()))
    }
}

/// The second operand of ADD and AND: the immediate if bit 5 is set, else
/// the register named by bits 2 to 0.
pub open spec fn operand2(m: Machine, instr: u16) -> u16 {
    if bit_of(instr, 5) == 1 {
        imm5(instr)
    } else {
        m.reg(reg_field(instr, 0))
    }
}

/// ADD: the destination gets the wrapping sum of the two operands.
pub open spec fn after_add(m: Machine, instr: u16) -> Machine {
    m.set_result(
        reg_field(instr, 9),
        wrapping_sum(m.reg(reg_field(instr, 6)), operand2(m, instr)),
    )
}

/// AND: the destination gets the bitwise conjunction of the two operands.
pub open spec fn after_and(m: Machine, instr: u16) -> Machine {
    m.set_result(reg_field(instr, 9), m.reg(reg_field(instr, 6)) & operand2(m, instr))
}

/// NOT: the destination gets the complement of the source.
pub open spec fn after_not(m: Machine, instr: u16) -> Machine {
    m.set_result(reg_field(instr, 9), !m.reg(reg_field(instr, 6)))
}

/// LD: the destination gets the word at the address relative to the
/// program counter.
pub open spec fn after_ld(m: Machine, instr: u16) -> Machine {
    m.set_result(reg_field(instr, 9), m.load(pc_relative(m, instr)))
}

/// LDI: the destination gets the word whose address is the word at the
/// address relative to the program counter.
pub open spec fn after_ldi(m: Machine, instr: u16) -> Machine {
    m.set_result(reg_field(instr, 9), m.load(m.load(pc_relative(m, instr))))
}

/// LDR: the destination gets the word at the base register plus the
/// 6-bit offset.
pub open spec fn after_ldr(m: Machine, instr: u16) -> Machine {
    m.set_result(
        reg_field(instr, 9),
        m.load(wrapping_sum(m.reg(reg_field(instr, 6)), offset6(instr))),
    )
}

/// LEA: the destination gets the address relative to the program counter.
pub open spec fn after_lea(m: Machine, instr: u16) -> Machine {
    m.set_result(reg_field(instr, 9), pc_relative(m, instr))
}

/// ST: the source goes to the address relative to the program counter.
pub open spec fn after_st(m: Machine, instr: u16) -> Machine {
    m.store(pc_relative(m, instr), m.reg(reg_field(instr, 9)))
}

/// STI: the source goes to the address held by the word at the address
/// relative to the program counter.
pub open spec fn after_sti(m: Machine, instr: u16) -> Machine {
    m.store(m.load(pc_relative(m, instr)), m.reg(reg_field(instr, 9)))
}

/// STR: the source goes to the base register plus the 9-bit offset.
pub open spec fn after_str(m: Machine, instr: u16) -> Machine {
    m.store(
        wrapping_sum(m.reg(reg_field(instr, 6)), offset9(instr)),
        m.reg(reg_field(instr, 9)),
    )
}

/// JMP: the program counter gets the value of the base register.
pub open spec fn after_jmp(m: Machine, instr: u16) -> Machine {
    m.set_reg(R::PC, m.reg(reg_field(instr, 6)))
}

/// JSR: register 7 gets the program counter; then the program counter
/// moves by the 11-bit offset if bit 11 is set, and else gets the value
/// that the base register has once register 7 is written.
pub open spec fn after_jsr(m: Machine, instr: u16) -> Machine {
    if bit_of(instr, 11) == 1 {
        m.linked().set_reg(R::PC, wrapping_sum(m.reg(R::PC), offset11(instr)))
    } else {
        m.linked().set_reg(R::PC, m.linked().reg(reg_field(instr, 6)))
    }
}

/// TRAP: register 7 gets the program counter, which gets the word at the
/// vector in the low eight bits of `instr`.
pub open spec fn after_trap(m: Machine, instr: u16) -> Machine {
    m.linked().set_reg(R::PC, m.load(instr & 0xff))
}

/// RTI: in privileged mode the program counter and then the status word
/// are read from the address in register 6, which moves up by one after
/// each. In user mode it fails and changes nothing.
pub open spec fn after_rti(m: Machine) -> (Machine, CycleResult) {
    if Mode::decode(m.reg(R::PSR)) == Mode::Privilege {
        let sp = m.reg(R::_6);
        (
            m.set_reg(R::_6, wrapping_sum(sp, 1)).set_reg(R::PC, m.load(sp)).set_reg(
                R::_6,
                wrapping_sum(wrapping_sum(sp, 1), 1),
            ).set_reg(R::PSR, m.load(wrapping_sum(sp, 1))),
            Ok(()),
        )
    } else {
        (m, Err(CycleError::IllegalPrivilege))
    }
}

/// What the instruction `instr` makes of state `m`, and what it reports.
pub open spec fn execute(m: Machine, instr: u16) -> (Machine, CycleResult) {
    match OpCode::of(instr) {
        OpCode::BR => after_br(m, instr),
        OpCode::ADD => (after_add(m, instr), Ok(())),
        OpCode::LD => (after_ld(m, instr), Ok(())),
        OpCode::ST => (after_st(m, instr), Ok(())),
        OpCode::JSR => (after_jsr(m, instr), Ok(())),
        OpCode::AND => (after_and(m, instr), Ok(())),
        OpCode::LDR => (after_ldr(m, instr), Ok(())),
        OpCode::STR => (after_str(m, instr), Ok(())),
        OpCode::RTI => after_rti(m),
        OpCode::NOT => (after_not(m, instr), Ok(())),
        OpCode::LDI => (after_ldi(m, instr), Ok(())),
        OpCode::STI => (after_sti(m, instr), Ok(())),
        OpCode::JMP => (after_jmp(m, instr), Ok(())),
        OpCode::RES => (m, Err(CycleError::ReservedOpcode)),
        OpCode::LEA => (after_lea(m, instr), Ok(())),
        OpCode::TRAP => (after_trap(m, instr), Ok(())),
    }
}

/// One step: the word at the program counter is fetched, the program
/// counter moves up by one, and the word is executed.
pub open spec fn step(m: Machine) -> (Machine, CycleResult) {
    execute(m.set_reg(R::PC, wrapping_sum(m.reg(R::PC), 1)), m.load(m.reg(R::PC)))
}

/// The engine: a register file and 65,536 words of memory.
pub struct CPU {
    register: Register,
    memory: [u16; 65536],
}

impl View for CPU {
    type V = Machine;

    closed spec fn view(&self) -> Machine {
        Machine { regs: self.register@, mem: self.memory@ }
    }
}

impl CPU {
    /// The engine's state has ten registers and a word for every address.
    pub proof fn lemma_wf(&self)
        ensures
            self@.wf(),
    {
        self.register.lemma_len();
    }

    /// An engine with every register and every word of memory zero.
    pub fn new() -> (cpu: CPU)
        ensures
            cpu@ == Machine::zeroed(),
    {
        let cpu = CPU { register: Register::new(), memory: [0u16;65536] };
        assert(cpu.memory@ =~= Seq::new(0x10000, |i: int| 0u16));
        cpu
    }

    /// Fetches the word at the program counter, moves the counter up by
    /// one and executes the word.
    pub fn tick(&mut self) -> (res: CycleResult)
        ensures
            final(self)@ == step(old(self)@).0,
            res == step(old(self)@).1,
    {
        let boot_addr: u16 = self.register.read_incr(R::PC);
        let instr: u16 = self.mem_read(boot_addr);
        let code: u16 = instr >> 12;
        assert((instr >> 12) < 16) by (bit_vector);
        let opcode: OpCode = OpCode::try_from(code)?;
        match opcode {
            OpCode::BR => self.mnemonic_br(instr),
            OpCode::ADD => self.mnemonic_add(instr),
            OpCode::LD => self.mnemonic_ld(instr),
            OpCode::ST => self.mnemonic_st(instr),
            OpCode::JSR => self.mnemonic_jsr(instr),
            OpCode::AND => self.mnemonic_and(instr),
            OpCode::LDR => self.mnemonic_ldr(instr),
            OpCode::STR => self.mnemonic_str(instr),
            OpCode::RTI => self.mnemonic_rti(instr),
            OpCode::NOT => self.mnemonic_not(instr),
            OpCode::LDI => self.mnemonic_ldi(instr),
            OpCode::STI => self.mnemonic_sti(instr),
            OpCode::JMP => self.mnemonic_jmp(instr),
            OpCode::RES => self.mnemonic_res(instr),
            OpCode::LEA => self.mnemonic_lea(instr),
            OpCode::TRAP => self.mnemonic_trap(instr),
        }
    }

    /// Stores `val` in register `r`.
    pub fn reg_store(&mut self, r: R, val: u16)
        ensures
            final(self)@ == old(self)@.set_reg(r, val),
    {
        self.register.write(r, val);
    }

    /// The value of register `r`.
    pub fn reg_load(&self, r: R) -> (val: u16)
        ensures
            val == self@.reg(r),
    {
        self.register.read(r)
    }

    /// The word at address `addr`.
    pub fn mem_read(&self, addr: u16) -> (val: u16)
        ensures
            val == self@.load(addr),
    {
        self.memory[addr as usize]
    }

    /// Stores `val` at address `addr`.
    pub fn mem_write(&mut self, addr: u16, val: u16)
        ensures
            final(self)@ == old(self)@.store(addr, val),
    {
        self.memory[addr as usize] = val;
    }

    /// Executes the branch `args`.
    pub fn mnemonic_br(&mut self, args: u16) -> (res: CycleResult)
        ensures
            final(self)@ == after_br(old(self)@, args).0,
            res == after_br(old(self)@, args).1,
            (args >> 9) & 7 == 0 ==> res == Ok::<(), CycleError>(()) && final(self)@ == old(
                self,
            )@.set_reg(R::PC, pc_relative(old(self)@, args)),
    {
        let offset: u16 = sign_extend(args & 0x1ff, 9);
        let nzp: u16 = (args >> 9) & 0x7;
        if nzp == 0 {
            let pc: u16 = self.register.read(R::PC);
            self.register.write(R::PC, pc.wrapping_add(offset));
            return Ok(());
        }
        let n: bool = bit(args, 11) == 1;
        let z: bool = bit(args, 10) == 1;
        let p: bool = bit(args, 9) == 1;
        let flag: Flag = self.register.get_flag()?;
        if (n && flag == Flag::Negative) || (z && flag == Flag::Zero) || (p && flag
            == Flag::Positive) {
            let pc: u16 = self.register.read(R::PC);
            self.register.write(R::PC, pc.wrapping_add(offset));
        }
        Ok(())
    }

    /// Executes an instruction of the shape of ADD and AND: the destination
    /// gets what `func` makes of the first operand and the second, and the
    /// flag is recomputed from it.
    pub fn mnemonic_imm5_or_sr2<F>(&mut self, args: u16, func: F) -> (res: CycleResult) where
        F: Fn(u16, u16) -> u16,
        requires
            forall|a: u16, b: u16| func.requires((a, b)),
        ensures
            res == Ok::<(), CycleError>(()),
            func.ensures(
                (old(self)@.reg(reg_field(args, 6)), operand2(old(self)@, args)),
                final(self)@.reg(reg_field(args, 9)),
            ),
            final(self)@ == old(self)@.set_result(
                reg_field(args, 9),
                final(self)@.reg(reg_field(args, 9)),
            ),
    {
        let r0: R = reg_1st(args)?;
        let r1: R = reg_2nd(args)?;
        let imm_flag: u16 = bit(args, 5);
        proof {
            self.register.lemma_len();
            lemma_reg_field(args);
        }
        if imm_flag == 1 {
            let val: u16 = func(self.register.read(r1), sign_extend(args & 0x1f, 5));
            self.register.write(r0, val);
        } else {
            let r2: R = R::try_from(args & 0x7)?;
            let val: u16 = func(self.register.read(r1), self.register.read(r2));
            self.register.write(r0, val);
        }
        self.register.update_flag(r0);
        Ok(())
    }

    /// Executes the ADD `args`.
    pub fn mnemonic_add(&mut self, args: u16) -> (res: CycleResult)
        ensures
            res == Ok::<(), CycleError>(()),
            final(self)@ == after_add(old(self)@, args),
    {
        let sum = |r1: u16, r2: u16| -> (val: u16)
            ensures
                val == wrapping_sum(r1, r2),
            {
                r1.wrapping_add(r2)
            };
        self.mnemonic_imm5_or_sr2(args, sum)
    }

    /// Executes the AND `args`.
    pub fn mnemonic_and(&mut self, args: u16) -> (res: CycleResult)
        ensures
            res == Ok::<(), CycleError>(()),
            final(self)@ == after_and(old(self)@, args),
    {
        let conj = |r1: u16, r2: u16| -> (val: u16)
            ensures
                val == r1 & r2,
            {
                r1 & r2
            };
        self.mnemonic_imm5_or_sr2(args, conj)
    }

    /// Executes the LDI `args`.
    pub fn mnemonic_ldi(&mut self, args: u16) -> (res: CycleResult)
        ensures
            res == Ok::<(), CycleError>(()),
            final(self)@ == after_ldi(old(self)@, args),
    {
        let r0: R = reg_1st(args)?;
        let pc_offset: u16 = sign_extend(args & 0x1ff, 9);
        let pointer: u16 = self.mem_read(self.register.read(R::PC).wrapping_add(pc_offset));
        let val: u16 = self.mem_read(pointer);
        self.register.write(r0, val);
        self.register.update_flag(r0);
        Ok(())
    }

    /// Executes the LD `args`.
    pub fn mnemonic_ld(&mut self, args: u16) -> (res: CycleResult)
        ensures
            res == Ok::<(), CycleError>(()),
            final(self)@ == after_ld(old(self)@, args),
    {
        let r0: R = reg_1st(args)?;
        let offset: u16 = sign_extend(args & 0x01ff, 9);
        let val: u16 = self.mem_read(self.register.read(R::PC).wrapping_add(offset));
        self.register.write(r0, val);
        self.register.update_flag(r0);
        Ok(())
    }

    /// Executes the ST `args`.
    pub fn mnemonic_st(&mut self, args: u16) -> (res: CycleResult)
        ensures
            res == Ok::<(), CycleError>(()),
            final(self)@ == after_st(old(self)@, args),
    {
        let r0: R = reg_1st(args)?;
        let offset: u16 = sign_extend(args & 0x01ff, 9);
        let addr: u16 = self.register.read(R::PC).wrapping_add(offset);
        let val: u16 = self.register.read(r0);
        self.mem_write(addr, val);
        Ok(())
    }

    /// Executes the reserved instruction: it fails and changes nothing.
    pub fn mnemonic_res(&mut self, args: u16) -> (res: CycleResult)
        ensures
            res == Err::<(), CycleError>(CycleError::ReservedOpcode),
            final(self)@ == old(self)@,
    {
        Err(CycleError::ReservedOpcode)
    }

    /// Executes the JSR `args`.
    pub fn mnemonic_jsr(&mut self, args: u16) -> (res: CycleResult)
        ensures
            res == Ok::<(), CycleError>(()),
            final(self)@ == after_jsr(old(self)@, args),
            final(self)@.reg(R::_7) == old(self)@.reg(R::PC),
            bit_of(args, 11) == 1 ==> final(self)@.reg(R::PC) == wrapping_sum(
                old(self)@.reg(R::PC),
                offset11(args),
            ),
            bit_of(args, 11) != 1 ==> final(self)@.reg(R::PC) == old(self)@.linked().reg(
                reg_field(args, 6),
            ),
    {
        let mode: u16 = bit(args, 11);
        let r0: R = reg_2nd(args)?;
        let pc: u16 = self.register.read(R::PC);
        proof {
            self.register.lemma_len();
        }
        self.register.write(R::_7, pc);
        if mode == 1 {
            let target: u16 = pc.wrapping_add(sign_extend(args & 0x07ff, 11));
            self.register.write(R::PC, target);
            return Ok(());
        }
        let target: u16 = self.register.read(r0);
        self.register.write(R::PC, target);
        Ok(())
    }

    /// Executes the LDR `args`.
    pub fn mnemonic_ldr(&mut self, args: u16) -> (res: CycleResult)
        ensures
            res == Ok::<(), CycleError>(()),
            final(self)@ == after_ldr(old(self)@, args),
    {
        let r0: R = reg_1st(args)?;
        let r1: R = reg_2nd(args)?;
        let offset: u16 = sign_extend(args & 0x3f, 6);
        let val: u16 = self.mem_read(self.register.read(r1).wrapping_add(offset));
        self.register.write(r0, val);
        self.register.update_flag(r0);
        Ok(())
    }

    /// Executes the STR `args`.
    pub fn mnemonic_str(&mut self, args: u16) -> (res: CycleResult)
        ensures
            res == Ok::<(), CycleError>(()),
            final(self)@ == after_str(old(self)@, args),
    {
        let r0: R = reg_1st(args)?;
        let r1: R = reg_2nd(args)?;
        let offset: u16 = sign_extend(args & 0x01ff, 9);
        let addr: u16 = self.register.read(r1).wrapping_add(offset);
        let val: u16 = self.register.read(r0);
        self.mem_write(addr, val);
        Ok(())
    }

    /// Executes a return from interrupt, which is legal in privileged
    /// mode only.
    pub fn mnemonic_rti(&mut self, args: u16) -> (res: CycleResult)
        ensures
            final(self)@ == after_rti(old(self)@).0,
            res == after_rti(old(self)@).1,
            Mode::decode(old(self)@.reg(R::PSR)) == Mode::User ==> final(self)@ == old(self)@
                && res == Err::<(), CycleError>(CycleError::IllegalPrivilege),
            Mode::decode(old(self)@.reg(R::PSR)) == Mode::Privilege ==> {
                &&& res == Ok::<(), CycleError>(())
                &&& final(self)@.reg(R::PC) == old(self)@.load(old(self)@.reg(R::_6))
                &&& final(self)@.reg(R::PSR) == old(self)@.load(
                    wrapping_sum(old(self)@.reg(R::_6), 1),
                )
                &&& final(self)@.reg(R::_6) == wrapping_sum(old(self)@.reg(R::_6), 2)
                &&& final(self)@.mem == old(self)@.mem
            },
    {
        let mode: Mode = self.register.get_mode()?;
        proof {
            self.register.lemma_len();
        }
        if mode == Mode::Privilege {
            let addr: u16 = self.register.read_incr(R::_6);
            let pc: u16 = self.mem_read(addr);
            self.register.write(R::PC, pc);
            let addr: u16 = self.register.read_incr(R::_6);
            let psr: u16 = self.mem_read(addr);
            self.register.write(R::PSR, psr);
            return Ok(());
        }
        Err(CycleError::IllegalPrivilege)
    }

    /// Executes the NOT `args`.
    pub fn mnemonic_not(&mut self, args: u16) -> (res: CycleResult)
        ensures
            res == Ok::<(), CycleError>(()),
            final(self)@ == after_not(old(self)@, args),
    {
        let r0: R = reg_1st(args)?;
        let r1: R = reg_2nd(args)?;
        let val: u16 = !self.register.read(r1);
        self.register.write(r0, val);
        self.register.update_flag(r0);
        Ok(())
    }

    /// Executes the STI `args`.
    pub fn mnemonic_sti(&mut self, args: u16) -> (res: CycleResult)
        ensures
            res == Ok::<(), CycleError>(()),
            final(self)@ == after_sti(old(self)@, args),
    {
        let r0: R = reg_1st(args)?;
        let offset: u16 = sign_extend(args & 0x1ff, 9);
        let addr: u16 = self.mem_read(self.register.read(R::PC).wrapping_add(offset));
        let val: u16 = self.register.read(r0);
        self.mem_write(addr, val);
        Ok(())
    }

    /// Executes the JMP `args`.
    pub fn mnemonic_jmp(&mut self, args: u16) -> (res: CycleResult)
        ensures
            res == Ok::<(), CycleError>(()),
            final(self)@ == after_jmp(old(self)@, args),
    {
        let r0: R = reg_2nd(args)?;
        let target: u16 = self.register.read(r0);
        self.register.write(R::PC, target);
        Ok(())
    }

    /// Executes the LEA `args`.
    pub fn mnemonic_lea(&mut self, args: u16) -> (res: CycleResult)
        ensures
            res == Ok::<(), CycleError>(()),
            final(self)@ == after_lea(old(self)@, args),
    {
        let r0: R = reg_1st(args)?;
        let offset: u16 = sign_extend(args & 0x01ff, 9);
        let val: u16 = self.register.read(R::PC).wrapping_add(offset);
        self.register.write(r0, val);
        self.register.update_flag(r0);
        Ok(())
    }

    /// Executes the TRAP `args`.
    pub fn mnemonic_trap(&mut self, args: u16) -> (res: CycleResult)
        ensures
            res == Ok::<(), CycleError>(()),
            final(self)@ == after_trap(old(self)@, args),
            final(self)@.reg(R::_7) == old(self)@.reg(R::PC),
    {
        let pc: u16 = self.register.read(R::PC);
        proof {
            self.register.lemma_len();
        }
        self.register.write(R::_7, pc);
        let target: u16 = self.mem_read(args & 0x00ff);
        self.register.write(R::PC, target);
        Ok(())
    }
}

/// A word stored at an address is the word loaded from it, and a store
/// leaves every other address and every register as they were.
pub proof fn lemma_store_then_load(m: Machine, addr: u16, other: u16, val: u16)
    requires
        m.wf(),
    ensures
        m.store(addr, val).wf(),
        m.store(addr, val).load(addr) == val,
        other != addr ==> m.store(addr, val).load(other) == m.load(other),
        m.store(addr, val).regs == m.regs,
{
}

/// Writing a result register stores the value there, names its sign in the
/// flag, and leaves memory, the other registers, the priority level and
/// the mode as they were.
pub proof fn lemma_set_result(m: Machine, r: R, other: R, val: u16)
    requires
        m.wf(),
        r.index() < 8,
    ensures
        m.set_result(r, val).wf(),
        m.set_result(r, val).reg(r) == val,
        m.set_result(r, val).mem == m.mem,
        other != r && other != R::PSR ==> m.set_result(r, val).reg(other) == m.reg(other),
        Flag::decode(m.set_result(r, val).reg(R::PSR)) == Some(Flag::of_value(val)),
        PL::decode(m.set_result(r, val).reg(R::PSR)) == PL::decode(m.reg(R::PSR)),
        Mode::decode(m.set_result(r, val).reg(R::PSR)) == Mode::decode(m.reg(R::PSR)),
{
    lemma_flag_updated(m.regs.update(r.index(), val), r, other);
}

/// A branch that names no condition is taken whatever the status word
/// holds.
pub proof fn lemma_branch_unconditional(m: Machine, instr: u16)
    requires
        (instr >> 9) & 7 == 0,
    ensures
        after_br(m, instr) == (m.set_reg(R::PC, pc_relative(m, instr)), Ok::<(), CycleError>(())),
{
}

/// Under flag `f`, a branch that names a condition moves the program
/// counter if it names `f`, and else changes nothing; it succeeds either
/// way.
pub proof fn lemma_branch_conditional(m: Machine, instr: u16, f: Flag)
    requires
        (instr >> 9) & 7 != 0,
        Flag::decode(m.reg(R::PSR)) == Some(f),
    ensures
        after_br(m, instr).1 == Ok::<(), CycleError>(()),
        bit_of(instr, condition_bit(f)) == 1 ==> after_br(m, instr).0 == m.set_reg(
            R::PC,
            pc_relative(m, instr),
        ),
        bit_of(instr, condition_bit(f)) != 1 ==> after_br(m, instr).0 == m,
{
}

/// A jump to a subroutine leaves the old program counter in register 7,
/// and memory and the registers other than these two as they were.
pub proof fn lemma_jsr_links(m: Machine, instr: u16, other: R)
    requires
        m.wf(),
    ensures
        after_jsr(m, instr).reg(R::_7) == m.reg(R::PC),
        after_jsr(m, instr).mem == m.mem,
        other != R::_7 && other != R::PC ==> after_jsr(m, instr).reg(other) == m.reg(other),
        bit_of(instr, 11) == 1 ==> after_jsr(m, instr).reg(R::PC) == wrapping_sum(
            m.reg(R::PC),
            offset11(instr),
        ),
        bit_of(instr, 11) != 1 && reg_field(instr, 6) != R::_7 ==> after_jsr(m, instr).reg(R::PC)
            == m.reg(reg_field(instr, 6)),
        bit_of(instr, 11) != 1 && reg_field(instr, 6) == R::_7 ==> after_jsr(m, instr).reg(R::PC)
            == m.reg(R::PC),
{
    lemma_reg_field(instr);
}

/// In privileged mode a return from interrupt takes the program counter
/// and the status word from the two words at the address in register 6,
/// moves that register up by two, and leaves all else as it was. In user
/// mode it fails and changes nothing.
pub proof fn lemma_rti(m: Machine, other: R)
    requires
        m.wf(),
    ensures
        Mode::decode(m.reg(R::PSR)) == Mode::User ==> after_rti(m) == (
            m,
            Err::<(), CycleError>(CycleError::IllegalPrivilege),
        ),
        Mode::decode(m.reg(R::PSR)) == Mode::Privilege ==> {
            &&& after_rti(m).1 == Ok::<(), CycleError>(())
            &&& after_rti(m).0.reg(R::PC) == m.load(m.reg(R::_6))
            &&& after_rti(m).0.reg(R::PSR) == m.load(wrapping_sum(m.reg(R::_6), 1))
            &&& after_rti(m).0.reg(R::_6) == wrapping_sum(m.reg(R::_6), 2)
            &&& after_rti(m).0.mem == m.mem
            &&& other != R::PC && other != R::PSR && other != R::_6 ==> after_rti(m).0.reg(other)
                == m.reg(other)
        },
{
}

/// A step fails in exactly three cases: the word fetched is the reserved
/// instruction, a return from interrupt in user mode, or a branch that
/// names a condition while the status word holds no flag.
pub proof fn lemma_step_fails(m: Machine)
    requires
        m.wf(),
    ensures
        step(m).1 == match OpCode::of(m.load(m.reg(R::PC))) {
            OpCode::RES => Err::<(), CycleError>(CycleError::ReservedOpcode),
            OpCode::RTI => if Mode::decode(m.reg(R::PSR)) == Mode::User {
                Err(CycleError::IllegalPrivilege)
            } else {
                Ok(())
            },
            OpCode::BR => if (m.load(m.reg(R::PC)) >> 9) & 7 != 0 && Flag::decode(m.reg(R::PSR))
                is None {
                Err(CycleError::StatusWord(m.reg(R::PSR) & 7))
            } else {
                Ok(())
            },
            _ => Ok(()),
        },
{
}

/// A step that fails has moved the program counter past the word
/// fetched and changed nothing else.
pub proof fn lemma_failed_step(m: Machine)
    requires
        m.wf(),
        step(m).1 is Err,
    ensures
        step(m).0 == m.set_reg(R::PC, wrapping_sum(m.reg(R::PC), 1)),
{
}

/// A step keeps the machine's shape: ten registers and a word for every
/// address.
pub proof fn lemma_step_wf(m: Machine)
    requires
        m.wf(),
    ensures
        step(m).0.wf(),
{
}

} // verus!
