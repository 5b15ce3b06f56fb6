use lc3::cpu::{OpCode, CPU};
use lc3::error::CycleError;
use lc3::register::{Flag, Mode, R};

const GENERAL: [R; 8] = [R::_0, R::_1, R::_2, R::_3, R::_4, R::_5, R::_6, R::_7];

const ALL: [R; 10] = [R::_0, R::_1, R::_2, R::_3, R::_4, R::_5, R::_6, R::_7, R::PC, R::PSR];

fn run(cpu: &mut CPU, pc: u16, instr: u16) -> Result<(), CycleError> {
    cpu.reg_store(R::PC, pc);
    cpu.mem_write(pc, instr);
    cpu.tick()
}

fn flag(cpu: &CPU) -> Result<Flag, CycleError> {
    Flag::try_from(cpu.reg_load(R::PSR))
}

fn registers(cpu: &CPU) -> Vec<u16> {
    ALL.iter().map(|r| cpu.reg_load(*r)).collect()
}

#[test]
fn new_engine_is_zero() {
    let cpu = CPU::new();
    for r in ALL {
        assert_eq!(cpu.reg_load(r), 0);
    }
    for addr in 0u16..=0xFFFF {
        assert_eq!(cpu.mem_read(addr), 0);
    }
}

#[test]
fn memory_round_trips_at_every_address() {
    let mut cpu = CPU::new();
    for addr in 0u16..=0xFFFF {
        cpu.mem_write(addr, !addr);
    }
    for addr in 0u16..=0xFFFF {
        assert_eq!(cpu.mem_read(addr), !addr);
    }
    for r in ALL {
        assert_eq!(cpu.reg_load(r), 0);
    }
}

#[test]
fn reg_store_then_reg_load() {
    let mut cpu = CPU::new();
    for r in ALL {
        for val in [0x0000u16, 0x0001, 0x1234, 0x8000, 0xFFFF] {
            cpu.reg_store(r, val);
            assert_eq!(cpu.reg_load(r), val);
        }
    }
    assert_eq!(cpu.mem_read(0), 0);
}

#[test]
fn opcodes_from_numbers() {
    let all = [
        OpCode::BR,
        OpCode::ADD,
        OpCode::LD,
        OpCode::ST,
        OpCode::JSR,
        OpCode::AND,
        OpCode::LDR,
        OpCode::STR,
        OpCode::RTI,
        OpCode::NOT,
        OpCode::LDI,
        OpCode::STI,
        OpCode::JMP,
        OpCode::RES,
        OpCode::LEA,
        OpCode::TRAP,
    ];
    for (n, op) in all.iter().enumerate() {
        assert_eq!(OpCode::try_from(n as u16), Ok(*op));
    }
    assert_eq!(OpCode::try_from(16), Err(CycleError::UnknownOpcode(16)));
    assert_eq!(OpCode::try_from(0xF000), Err(CycleError::UnknownOpcode(0xF000)));
}

#[test]
fn tick_fetches_at_the_program_counter_and_advances() {
    let mut cpu = CPU::new();
    cpu.reg_store(R::_1, 5);
    assert_eq!(run(&mut cpu, 0x3000, 0x1063), Ok(()));
    assert_eq!(cpu.reg_load(R::PC), 0x3001);
    assert_eq!(cpu.mem_read(0x3000), 0x1063);
}

#[test]
fn tick_wraps_the_program_counter() {
    let mut cpu = CPU::new();
    cpu.reg_store(R::_1, 5);
    assert_eq!(run(&mut cpu, 0xFFFF, 0x1063), Ok(()));
    assert_eq!(cpu.reg_load(R::PC), 0x0000);
    assert_eq!(cpu.reg_load(R::_0), 8);
}

#[test]
fn add_immediate() {
    let mut cpu = CPU::new();
    cpu.reg_store(R::_1, 5);
    assert_eq!(run(&mut cpu, 0x3000, 0x1063), Ok(()));
    assert_eq!(cpu.reg_load(R::_0), 8);
    assert_eq!(cpu.reg_load(R::_1), 5);
    assert_eq!(flag(&cpu), Ok(Flag::Positive));
}

#[test]
fn add_negative_immediate() {
    let mut cpu = CPU::new();
    cpu.reg_store(R::_1, 5);
    assert_eq!(run(&mut cpu, 0x3000, 0x107F), Ok(()));
    assert_eq!(cpu.reg_load(R::_0), 4);
    assert_eq!(flag(&cpu), Ok(Flag::Positive));
    cpu.reg_store(R::_1, 0);
    assert_eq!(run(&mut cpu, 0x3000, 0x107F), Ok(()));
    assert_eq!(cpu.reg_load(R::_0), 0xFFFF);
    assert_eq!(flag(&cpu), Ok(Flag::Negative));
}

#[test]
fn add_register_mode_wraps() {
    let mut cpu = CPU::new();
    cpu.reg_store(R::_1, 0xFFFF);
    cpu.reg_store(R::_2, 1);
    assert_eq!(run(&mut cpu, 0x3000, 0x1042), Ok(()));
    assert_eq!(cpu.reg_load(R::_0), 0x0000);
    assert_eq!(flag(&cpu), Ok(Flag::Zero));
}

#[test]
fn add_register_mode_ignores_bits_four_and_three() {
    let mut cpu = CPU::new();
    cpu.reg_store(R::_1, 0x1000);
    cpu.reg_store(R::_2, 0x0234);
    assert_eq!(run(&mut cpu, 0x3000, 0x105A), Ok(()));
    assert_eq!(cpu.reg_load(R::_0), 0x1234);
}

#[test]
fn add_through_the_handler() {
    let mut cpu = CPU::new();
    cpu.reg_store(R::_5, 0x7FFF);
    assert_eq!(cpu.mnemonic_add(0x1D61), Ok(()));
    assert_eq!(cpu.reg_load(R::_6), 0x8000);
    assert_eq!(flag(&cpu), Ok(Flag::Negative));
    assert_eq!(cpu.reg_load(R::PC), 0);
}

#[test]
fn and_immediate() {
    let mut cpu = CPU::new();
    cpu.reg_store(R::_1, 0x0F0F);
    assert_eq!(run(&mut cpu, 0x3000, 0x506F), Ok(()));
    assert_eq!(cpu.reg_load(R::_0), 0x000F);
    assert_eq!(flag(&cpu), Ok(Flag::Positive));
}

#[test]
fn and_sign_extends_its_immediate() {
    let mut cpu = CPU::new();
    cpu.reg_store(R::_1, 0xF0F0);
    assert_eq!(run(&mut cpu, 0x3000, 0x507F), Ok(()));
    assert_eq!(cpu.reg_load(R::_0), 0xF0F0);
    assert_eq!(flag(&cpu), Ok(Flag::Negative));
}

#[test]
fn and_register_mode() {
    let mut cpu = CPU::new();
    cpu.reg_store(R::_1, 0xFF00);
    cpu.reg_store(R::_2, 0x00FF);
    assert_eq!(run(&mut cpu, 0x3000, 0x5042), Ok(()));
    assert_eq!(cpu.reg_load(R::_0), 0x0000);
    assert_eq!(flag(&cpu), Ok(Flag::Zero));
}

#[test]
fn alu_with_a_function_of_the_caller() {
    let mut cpu = CPU::new();
    cpu.reg_store(R::_1, 0x00F0);
    cpu.reg_store(R::_2, 0x0F00);
    assert_eq!(cpu.mnemonic_imm5_or_sr2(0x0042, |a, b| a | b), Ok(()));
    assert_eq!(cpu.reg_load(R::_0), 0x0FF0);
    assert_eq!(flag(&cpu), Ok(Flag::Positive));
    assert_eq!(cpu.mnemonic_imm5_or_sr2(0x0671, |a, b| a ^ b), Ok(()));
    assert_eq!(cpu.reg_load(R::_3), 0xFF01);
    assert_eq!(flag(&cpu), Ok(Flag::Negative));
}

#[test]
fn not_complements() {
    let mut cpu = CPU::new();
    cpu.reg_store(R::_1, 0x00FF);
    assert_eq!(run(&mut cpu, 0x3000, 0x947F), Ok(()));
    assert_eq!(cpu.reg_load(R::_2), 0xFF00);
    assert_eq!(cpu.reg_load(R::_1), 0x00FF);
    assert_eq!(flag(&cpu), Ok(Flag::Negative));
    cpu.reg_store(R::_1, 0xFFFF);
    assert_eq!(run(&mut cpu, 0x3000, 0x947F), Ok(()));
    assert_eq!(cpu.reg_load(R::_2), 0x0000);
    assert_eq!(flag(&cpu), Ok(Flag::Zero));
}

#[test]
fn br_unconditional_branches_under_every_status_word() {
    for psr in [0x0000u16, 0x0001, 0x0002, 0x0004, 0x0007, 0x8003] {
        let mut cpu = CPU::new();
        cpu.reg_store(R::PSR, psr);
        assert_eq!(run(&mut cpu, 0x3000, 0x0005), Ok(()));
        assert_eq!(cpu.reg_load(R::PC), 0x3006);
        assert_eq!(cpu.reg_load(R::PSR), psr);
    }
}

#[test]
fn br_uses_all_nine_bits_of_the_offset() {
    let mut cpu = CPU::new();
    assert_eq!(run(&mut cpu, 0x3000, 0x01FF), Ok(()));
    assert_eq!(cpu.reg_load(R::PC), 0x3000);
    assert_eq!(run(&mut cpu, 0x3000, 0x00F6), Ok(()));
    assert_eq!(cpu.reg_load(R::PC), 0x30F7);
    assert_eq!(run(&mut cpu, 0x3000, 0x0100), Ok(()));
    assert_eq!(cpu.reg_load(R::PC), 0x2F01);
}

#[test]
fn br_conditional_not_taken() {
    let mut cpu = CPU::new();
    cpu.reg_store(R::PSR, 0x0004);
    assert_eq!(run(&mut cpu, 0x3000, 0x0605), Ok(()));
    assert_eq!(cpu.reg_load(R::PC), 0x3001);
    assert_eq!(cpu.reg_load(R::PSR), 0x0004);
}

#[test]
fn br_conditional_taken() {
    let mut cpu = CPU::new();
    cpu.reg_store(R::PSR, 0x0004);
    assert_eq!(run(&mut cpu, 0x3000, 0x0805), Ok(()));
    assert_eq!(cpu.reg_load(R::PC), 0x3006);
    assert_eq!(cpu.reg_load(R::PSR), 0x0004);
}

#[test]
fn br_each_condition_against_each_flag() {
    let cases = [(0x0800u16, 0x0004u16), (0x0400, 0x0002), (0x0200, 0x0001)];
    for (request, _) in cases {
        for (_, psr) in cases {
            let mut cpu = CPU::new();
            cpu.reg_store(R::PSR, psr);
            assert_eq!(run(&mut cpu, 0x3000, request | 0x0010), Ok(()));
            let taken = cases.contains(&(request, psr));
            assert_eq!(cpu.reg_load(R::PC), if taken { 0x3011 } else { 0x3001 });
        }
    }
    let mut cpu = CPU::new();
    cpu.reg_store(R::PSR, 0x0002);
    assert_eq!(run(&mut cpu, 0x3000, 0x0E10), Ok(()));
    assert_eq!(cpu.reg_load(R::PC), 0x3011);
}

#[test]
fn br_conditional_fails_without_a_flag() {
    let mut cpu = CPU::new();
    assert_eq!(run(&mut cpu, 0x3000, 0x0805), Err(CycleError::StatusWord(0)));
    assert_eq!(cpu.reg_load(R::PC), 0x3001);
    cpu.reg_store(R::PSR, 0x8003);
    assert_eq!(run(&mut cpu, 0x3000, 0x0E05), Err(CycleError::StatusWord(3)));
    assert_eq!(cpu.reg_load(R::PC), 0x3001);
    assert_eq!(cpu.reg_load(R::PSR), 0x8003);
}

#[test]
fn ld_reads_relative_to_the_program_counter() {
    let mut cpu = CPU::new();
    cpu.mem_write(0x3003, 0x8001);
    assert_eq!(run(&mut cpu, 0x3000, 0x2002), Ok(()));
    assert_eq!(cpu.reg_load(R::_0), 0x8001);
    assert_eq!(flag(&cpu), Ok(Flag::Negative));
    cpu.mem_write(0x2FFF, 0x0042);
    assert_eq!(run(&mut cpu, 0x3000, 0x27FE), Ok(()));
    assert_eq!(cpu.reg_load(R::_3), 0x0042);
    assert_eq!(flag(&cpu), Ok(Flag::Positive));
}

#[test]
fn ldi_double_indirection() {
    let mut cpu = CPU::new();
    cpu.mem_write(0x3003, 0x4000);
    cpu.mem_write(0x4000, 0x1234);
    assert_eq!(run(&mut cpu, 0x3000, 0xA002), Ok(()));
    assert_eq!(cpu.reg_load(R::_0), 0x1234);
    assert_eq!(flag(&cpu), Ok(Flag::Positive));
}

#[test]
fn ldr_reads_relative_to_the_base() {
    let mut cpu = CPU::new();
    cpu.reg_store(R::_1, 0x4001);
    cpu.mem_write(0x4000, 0xABCD);
    assert_eq!(run(&mut cpu, 0x3000, 0x607F), Ok(()));
    assert_eq!(cpu.reg_load(R::_0), 0xABCD);
    assert_eq!(flag(&cpu), Ok(Flag::Negative));
    cpu.mem_write(0x4020, 0x0000);
    cpu.mem_write(0x4002, 0x0777);
    assert_eq!(run(&mut cpu, 0x3000, 0x6441), Ok(()));
    assert_eq!(cpu.reg_load(R::_2), 0x0777);
    assert_eq!(flag(&cpu), Ok(Flag::Positive));
}

#[test]
fn lea_computes_the_address_only() {
    let mut cpu = CPU::new();
    cpu.mem_write(0x2FFF, 0x5555);
    assert_eq!(run(&mut cpu, 0x3000, 0xE7FE), Ok(()));
    assert_eq!(cpu.reg_load(R::_3), 0x2FFF);
    assert_eq!(flag(&cpu), Ok(Flag::Positive));
    assert_eq!(run(&mut cpu, 0xFFFE, 0xE001), Ok(()));
    assert_eq!(cpu.reg_load(R::_0), 0x0000);
    assert_eq!(flag(&cpu), Ok(Flag::Zero));
}

#[test]
fn st_writes_relative_to_the_program_counter() {
    let mut cpu = CPU::new();
    cpu.reg_store(R::_1, 0xBEEF);
    cpu.reg_store(R::PSR, 0x0002);
    assert_eq!(run(&mut cpu, 0x3000, 0x3203), Ok(()));
    assert_eq!(cpu.mem_read(0x3004), 0xBEEF);
    assert_eq!(cpu.reg_load(R::PSR), 0x0002);
    assert_eq!(cpu.reg_load(R::_1), 0xBEEF);
}

#[test]
fn sti_writes_through_a_pointer() {
    let mut cpu = CPU::new();
    cpu.reg_store(R::_1, 0xBEEF);
    cpu.mem_write(0x3004, 0x5000);
    assert_eq!(run(&mut cpu, 0x3000, 0xB203), Ok(()));
    assert_eq!(cpu.mem_read(0x5000), 0xBEEF);
    assert_eq!(cpu.mem_read(0x3004), 0x5000);
    assert_eq!(cpu.reg_load(R::PSR), 0x0000);
}

#[test]
fn str_writes_relative_to_the_base() {
    let mut cpu = CPU::new();
    cpu.reg_store(R::_1, 0xBEEF);
    cpu.reg_store(R::_2, 0x4000);
    assert_eq!(run(&mut cpu, 0x3000, 0x7281), Ok(()));
    assert_eq!(cpu.mem_read(0x4081), 0xBEEF);
    cpu.reg_store(R::_4, 0x4000);
    assert_eq!(run(&mut cpu, 0x3000, 0x7301), Ok(()));
    assert_eq!(cpu.mem_read(0x3F01), 0xBEEF);
    assert_eq!(cpu.reg_load(R::PSR), 0x0000);
}

#[test]
fn jmp_loads_the_program_counter() {
    let mut cpu = CPU::new();
    cpu.reg_store(R::_2, 0x1234);
    cpu.reg_store(R::PSR, 0x0004);
    assert_eq!(run(&mut cpu, 0x3000, 0xC080), Ok(()));
    assert_eq!(cpu.reg_load(R::PC), 0x1234);
    assert_eq!(cpu.reg_load(R::PSR), 0x0004);
    cpu.reg_store(R::_7, 0x4321);
    assert_eq!(run(&mut cpu, 0x3000, 0xC1C0), Ok(()));
    assert_eq!(cpu.reg_load(R::PC), 0x4321);
}

#[test]
fn jsr_saves_and_jumps_by_offset() {
    let mut cpu = CPU::new();
    cpu.reg_store(R::PC, 0x3001);
    assert_eq!(cpu.mnemonic_jsr(0x4805), Ok(()));
    assert_eq!(cpu.reg_load(R::_7), 0x3001);
    assert_eq!(cpu.reg_load(R::PC), 0x3006);
    cpu.reg_store(R::PC, 0x3001);
    assert_eq!(cpu.mnemonic_jsr(0x4FFF), Ok(()));
    assert_eq!(cpu.reg_load(R::_7), 0x3001);
    assert_eq!(cpu.reg_load(R::PC), 0x3000);
}

#[test]
fn jsr_saves_and_jumps_to_register() {
    let mut cpu = CPU::new();
    cpu.reg_store(R::PC, 0x3001);
    cpu.reg_store(R::_2, 0x5000);
    assert_eq!(cpu.mnemonic_jsr(0x4080), Ok(()));
    assert_eq!(cpu.reg_load(R::_7), 0x3001);
    assert_eq!(cpu.reg_load(R::PC), 0x5000);
    assert_eq!(cpu.reg_load(R::_2), 0x5000);
}

#[test]
fn jsr_through_tick() {
    let mut cpu = CPU::new();
    cpu.reg_store(R::PSR, 0x0002);
    assert_eq!(run(&mut cpu, 0x3000, 0x4805), Ok(()));
    assert_eq!(cpu.reg_load(R::_7), 0x3001);
    assert_eq!(cpu.reg_load(R::PC), 0x3006);
    assert_eq!(cpu.reg_load(R::PSR), 0x0002);
}

#[test]
fn jsr_to_register_seven_sees_the_saved_counter() {
    let mut cpu = CPU::new();
    cpu.reg_store(R::_7, 0x5000);
    assert_eq!(run(&mut cpu, 0x3000, 0x41C0), Ok(()));
    assert_eq!(cpu.reg_load(R::_7), 0x3001);
    assert_eq!(cpu.reg_load(R::PC), 0x3001);
}

#[test]
fn trap_jumps_through_the_vector() {
    let mut cpu = CPU::new();
    cpu.mem_write(0x0025, 0x0400);
    assert_eq!(run(&mut cpu, 0x3000, 0xF025), Ok(()));
    assert_eq!(cpu.reg_load(R::_7), 0x3001);
    assert_eq!(cpu.reg_load(R::PC), 0x0400);
    cpu.mem_write(0x00FF, 0x0520);
    assert_eq!(run(&mut cpu, 0x3000, 0xFFFF), Ok(()));
    assert_eq!(cpu.reg_load(R::PC), 0x0520);
}

#[test]
fn rti_in_privileged_mode_pops_counter_and_status() {
    let mut cpu = CPU::new();
    cpu.reg_store(R::PSR, 0x0002);
    cpu.reg_store(R::_6, 0x2FFE);
    cpu.mem_write(0x2FFE, 0x3100);
    cpu.mem_write(0x2FFF, 0x8004);
    assert_eq!(run(&mut cpu, 0x0200, 0x8000), Ok(()));
    assert_eq!(cpu.reg_load(R::PC), 0x3100);
    assert_eq!(cpu.reg_load(R::PSR), 0x8004);
    assert_eq!(cpu.reg_load(R::_6), 0x3000);
    assert_eq!(Mode::try_from(cpu.reg_load(R::PSR)), Ok(Mode::User));
    assert_eq!(cpu.mem_read(0x2FFE), 0x3100);
    assert_eq!(cpu.mem_read(0x2FFF), 0x8004);
}

#[test]
fn rti_wraps_the_stack_address() {
    let mut cpu = CPU::new();
    cpu.reg_store(R::_6, 0xFFFF);
    cpu.mem_write(0xFFFF, 0x1111);
    cpu.mem_write(0x0000, 0x0201);
    assert_eq!(cpu.mnemonic_rti(0x8000), Ok(()));
    assert_eq!(cpu.reg_load(R::PC), 0x1111);
    assert_eq!(cpu.reg_load(R::PSR), 0x0201);
    assert_eq!(cpu.reg_load(R::_6), 0x0001);
}

#[test]
fn rti_in_user_mode_fails_and_changes_nothing() {
    let mut cpu = CPU::new();
    cpu.reg_store(R::PSR, 0x8002);
    cpu.reg_store(R::_6, 0x2FFE);
    cpu.reg_store(R::PC, 0x3001);
    cpu.mem_write(0x2FFE, 0x3100);
    cpu.mem_write(0x2FFF, 0x0004);
    let before = registers(&cpu);
    assert_eq!(cpu.mnemonic_rti(0x8000), Err(CycleError::IllegalPrivilege));
    assert_eq!(registers(&cpu), before);
    assert_eq!(cpu.mem_read(0x2FFE), 0x3100);
    assert_eq!(cpu.mem_read(0x2FFF), 0x0004);
    assert_eq!(run(&mut cpu, 0x3000, 0x8000), Err(CycleError::IllegalPrivilege));
    assert_eq!(cpu.reg_load(R::PC), 0x3001);
    assert_eq!(cpu.reg_load(R::_6), 0x2FFE);
    assert_eq!(cpu.reg_load(R::PSR), 0x8002);
}

#[test]
fn reserved_opcode_fails_and_changes_nothing() {
    let mut cpu = CPU::new();
    for (i, r) in ALL.iter().enumerate() {
        cpu.reg_store(*r, 0x1000 + i as u16);
    }
    cpu.mem_write(0x1008, 0xD000);
    let before = registers(&cpu);
    assert_eq!(cpu.mnemonic_res(0xD000), Err(CycleError::ReservedOpcode));
    assert_eq!(cpu.mnemonic_res(0xDFFF), Err(CycleError::ReservedOpcode));
    assert_eq!(registers(&cpu), before);
    assert_eq!(cpu.tick(), Err(CycleError::ReservedOpcode));
    for r in ALL {
        if r == R::PC {
            assert_eq!(cpu.reg_load(r), 0x1009);
        } else {
            assert_eq!(cpu.reg_load(r), before[r.slot()]);
        }
    }
    for addr in 0u16..=0xFFFF {
        assert_eq!(cpu.mem_read(addr), if addr == 0x1008 { 0xD000 } else { 0 });
    }
}

#[test]
fn result_registers_set_the_flag_and_keep_mode_and_priority() {
    for dst in GENERAL {
        let mut cpu = CPU::new();
        cpu.reg_store(R::PSR, 0x8281);
        let instr: u16 = 0xE000 | ((dst.slot() as u16) << 9);
        assert_eq!(run(&mut cpu, 0xFFFF, instr), Ok(()));
        assert_eq!(cpu.reg_load(dst), 0);
        assert_eq!(cpu.reg_load(R::PSR), 0x8282);
    }
}

#[test]
fn a_short_program() {
    let mut cpu = CPU::new();
    let program: [u16; 5] = [0x5020, 0x102A, 0x1240, 0x127F, 0x3201];
    for (i, word) in program.iter().enumerate() {
        cpu.mem_write(0x3000 + i as u16, *word);
    }
    cpu.reg_store(R::PC, 0x3000);
    for _ in 0..program.len() {
        assert_eq!(cpu.tick(), Ok(()));
    }
    assert_eq!(cpu.reg_load(R::_0), 10);
    assert_eq!(cpu.reg_load(R::_1), 9);
    assert_eq!(cpu.mem_read(0x3006), 9);
    assert_eq!(cpu.reg_load(R::PC), 0x3005);
    assert_eq!(flag(&cpu), Ok(Flag::Positive));
}
