//! The state of the machine that a program runs on: thirty-two registers,
//! byte-addressed memory and the program counter.
//!
//! A register or a byte of memory either holds a value or has never been
//! written. Reading one that was never written is reported as a fault.

use std::collections::HashMap;
use vstd::prelude::*;

verus! {

broadcast use vstd::std_specs::hash::group_hash_axioms;

/// How many general-purpose registers the machine has.
pub const REGISTER_COUNT: usize = 32;

/// A condition that stops a running program.
#[derive(Clone, Copy, Debug, PartialEq, Eq, Structural)]
pub enum RuntimeFault {
    /// A register was read that nothing had written.
    UninitialisedRegister(u8),
    /// A byte of memory was read that nothing had written.
    UninitialisedMemory(u32),
    /// An address was used that the program may not touch.
    InvalidMemoryAccess(u32),
    /// An arithmetic instruction had no result.
    Arithmetic,
    /// A system call was asked for that does not exist.
    UnknownSyscall(i32),
}

/// The machine's state as a mathematical value.
pub struct MachineModel {
    /// What each register holds, `None` for one never written.
    pub registers: Seq<Option<i32>>,
    /// The bytes of memory that have been written, by address.
    pub memory: Map<u32, u8>,
    /// The address of the instruction to run next.
    pub pc: u32,
}

/// The machine's state.
#[derive(Debug, PartialEq)]
pub struct MachineState {
    registers: [Option<i32>; 32],
    memory: HashMap<u32, u8>,
    pc: u32,
}

impl View for MachineState {
    type V = MachineModel;

    closed spec fn view(&self) -> MachineModel {
        MachineModel { registers: self.registers@, memory: self.memory@, pc: self.pc }
    }
}

impl Clone for MachineState {
    fn clone(&self) -> (copy: Self)
        ensures
            copy@ == self@,
    {
        MachineState { registers: self.registers, memory: self.memory.clone(), pc: self.pc }
    }
}

impl MachineState {
    /// A machine on which nothing has been written, about to run the
    /// instruction at `pc`.
    pub fn new(pc: u32) -> (m: MachineState)
        ensures
            m@.registers == Seq::new(REGISTER_COUNT as nat, |k: int| None::<i32>),
            m@.memory == Map::<u32, u8>::empty(),
            m@.pc == pc,
    {
        let registers: [Option<i32>; 32] = [None;32];
        assert(registers@ =~= Seq::new(REGISTER_COUNT as nat, |k: int| None::<i32>));
        MachineState { registers, memory: HashMap::new(), pc }
    }

    /// There are thirty-two registers, whatever has been written.
    pub proof fn lemma_register_count(&self)
        ensures
            self@.registers.len() == REGISTER_COUNT,
    {
    }

    /// The address of the instruction to run next.
    pub fn pc(&self) -> (pc: u32)
        ensures
            pc == self@.pc,
    {
        self.pc
    }

    /// Makes `pc` the address of the instruction to run next.
    pub fn set_pc(&mut self, pc: u32)
        ensures
            final(self)@ == (MachineModel { pc, ..old(self)@ }),
    {
        self.pc = pc;
    }

    /// The value of register `index`, or the fault of reading a register
    /// never written.
    pub fn read_register(&self, index: u8) -> (r: Result<i32, RuntimeFault>)
        requires
            index < REGISTER_COUNT,
        ensures
            self@.registers.len() == REGISTER_COUNT,
            r == match self@.registers[index as int] {
                Some(v) => Ok::<i32, RuntimeFault>(v),
                None => Err::<i32, RuntimeFault>(RuntimeFault::UninitialisedRegister(index)),
            },
    {
        match self.registers[index as usize] {
            Some(v) => Ok(v),
            None => Err(RuntimeFault::UninitialisedRegister(index)),
        }
    }

    /// Writes `value` to register `index`.
    pub fn write_register(&mut self, index: u8, value: i32)
        requires
            index < REGISTER_COUNT,
        ensures
            old(self)@.registers.len() == REGISTER_COUNT,
            final(self)@ == (MachineModel {
                registers: old(self)@.registers.update(index as int, Some(value)),
                ..old(self)@
            }),
    {
        self.registers[index as usize] = Some(value);
    }

    /// The byte at `address`, or the fault of reading memory never written.
    pub fn read_byte(&self, address: u32) -> (r: Result<u8, RuntimeFault>)
        ensures
            r == if self@.memory.contains_key(address) {
                Ok::<u8, RuntimeFault>(self@.memory[address])
            } else {
                Err::<u8, RuntimeFault>(RuntimeFault::UninitialisedMemory(address))
            },
    {
        match self.memory.get(&address) {
            Some(b) => Ok(*b),
            None => Err(RuntimeFault::UninitialisedMemory(address)),
        }
    }

    /// Writes `value` to the byte at `address`.
    pub fn write_byte(&mut self, address: u32, value: u8)
        ensures
            final(self)@ == (MachineModel {
                memory: old(self)@.memory.insert(address, value),
                ..old(self)@
            }),
    {
        self.memory.insert(address, value);
    }
}

} // verus!
