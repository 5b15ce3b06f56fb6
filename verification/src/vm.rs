//! The machine as its driver sees it: an engine and a running flag.

pub use crate::cpu::OpCode;

use crate::cpu::step;
use crate::cpu::CycleResult;
use crate::cpu::Machine;
use crate::cpu::CPU;
use crate::register::R;
use vstd::prelude::*;

verus! {

/// What the machine is booted with.
pub struct Args {
    /// Where the program image is kept, if there is one.
    pub image: Option<String>,
    /// The address at which execution starts.
    pub offset: u16,
}

/// An engine, and whether its driver should go on stepping it.
pub struct VM {
    cpu: CPU,
    running: bool,
}

impl Default for VM {
    /// A stopped machine with every register and every word of memory zero.
    fn default() -> (vm: VM)
        ensures
            vm.machine() == Machine::zeroed(),
            !vm.running(),
    {
        VM { cpu: CPU::new(), running: false }
    }
}

impl VM {
    /// The state of the engine.
    pub closed spec fn machine(&self) -> Machine {
        self.cpu@
    }

    /// Whether the machine has been booted and not aborted since.
    pub closed spec fn running(&self) -> bool {
        self.running
    }

    /// The engine's state has ten registers and a word for every address.
    pub proof fn lemma_wf(&self)
        ensures
            self.machine().wf(),
    {
        self.cpu.lemma_wf();
    }

    /// Sets the program counter to the start address and marks the
    /// machine as running.
    pub fn boot(&mut self, args: Args)
        ensures
            final(self).machine() == old(self).machine().set_reg(R::PC, args.offset),
            final(self).running(),
    {
        self.cpu.reg_store(R::PC, args.offset);
        self.running = true;
    }

    /// Whether the machine has been booted and not aborted since.
    pub fn is_running(&self) -> (on: bool)
        ensures
            on == self.running(),
    {
        self.running
    }

    /// Executes one step of the engine. A failure is reported and not
    /// acted on: the machine keeps running until it is aborted.
    pub fn next(&mut self) -> (res: CycleResult)
        ensures
            final(self).machine() == step(old(self).machine()).0,
            res == step(old(self).machine()).1,
            final(self).running() == old(self).running(),
    {
        self.cpu.tick()
    }

    /// Marks the machine as stopped; the engine's state stays as it is.
    pub fn abort(&mut self)
        ensures
            !final(self).running(),
            final(self).machine() == old(self).machine(),
    {
        self.running = false
    }

    /// The word at address `addr`.
    pub fn read_memory(&self, addr: u16) -> (val: u16)
        ensures
            val == self.machine().load(addr),
    {
        self.cpu.mem_read(addr)
    }

    /// Stores `val` at address `addr`.
    pub fn write_memory(&mut self, addr: u16, val: u16)
        ensures
            final(self).machine() == old(self).machine().store(addr, val),
            final(self).running() == old(self).running(),
    {
        self.cpu.mem_write(addr, val);
    }
}

} // verus!
