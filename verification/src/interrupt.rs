//! The fault table: built once at boot, registered with the CPU once, and
//! never touched again.
//!
//! Registration hands the table's storage over to the CPU, which keeps a
//! live, untracked reference to it for the rest of execution.  That one-way
//! transfer is modelled by consumption: loading takes the builder by value,
//! and the loaded table offers no operation that mutates or reloads it, so
//! no code path can change a table the CPU already owns.  The CPU-facing
//! registration itself (writing the fault-dispatch register) is unverified
//! glue outside this crate.

use vstd::prelude::*;

verus! {

/// The two fault vectors this system populates.
#[derive(Clone, Copy, Debug, PartialEq, Eq, Structural)]
pub enum FaultVector {
    /// The CPU decoded an instruction it cannot execute.
    InvalidOpcode,
    /// A fault was raised while another fault was being dispatched.  Its
    /// handler must never return.
    DoubleFault,
}

/// A fault table under construction: it records which of the two vectors
/// already have their handler installed.
pub struct InterruptTableBuilder {
    invalid_opcode_set: bool,
    double_fault_set: bool,
}

impl InterruptTableBuilder {
    /// Whether the invalid-opcode vector has its handler installed.
    pub closed spec fn spec_invalid_opcode_set(&self) -> bool {
        self.invalid_opcode_set
    }

    /// Whether the double-fault vector has its handler installed.
    pub closed spec fn spec_double_fault_set(&self) -> bool {
        self.double_fault_set
    }

    /// An empty table: no handler installed yet.
    pub fn new() -> (r: InterruptTableBuilder)
        ensures
            !r.spec_invalid_opcode_set(),
            !r.spec_double_fault_set(),
    {
        InterruptTableBuilder { invalid_opcode_set: false, double_fault_set: false }
    }

    /// Installs the invalid-opcode handler; the other vector is untouched.
    pub fn set_invalid_opcode_handler(&mut self)
        ensures
            final(self).spec_invalid_opcode_set(),
            final(self).spec_double_fault_set() == old(self).spec_double_fault_set(),
    {
        self.invalid_opcode_set = true;
    }

    /// Installs the double-fault handler; the other vector is untouched.
    pub fn set_double_fault_handler(&mut self)
        ensures
            final(self).spec_double_fault_set(),
            final(self).spec_invalid_opcode_set() == old(self).spec_invalid_opcode_set(),
    {
        self.double_fault_set = true;
    }

    /// Registers the table with the CPU.  The builder is consumed: after the
    /// load no operation can reach it again, and the loaded table cannot be
    /// mutated or reloaded — ownership of the storage now lies with the CPU.
    pub fn load(self) -> (t: LoadedInterruptTable)
        ensures
            t.spec_invalid_opcode_set() == self.spec_invalid_opcode_set(),
            t.spec_double_fault_set() == self.spec_double_fault_set(),
    {
        LoadedInterruptTable {
            invalid_opcode_set: self.invalid_opcode_set,
            double_fault_set: self.double_fault_set,
        }
    }
}

/// A fault table the CPU owns.  It records what was installed at load time
/// and offers no mutation and no second load.
pub struct LoadedInterruptTable {
    invalid_opcode_set: bool,
    double_fault_set: bool,
}

impl LoadedInterruptTable {
    /// Whether the invalid-opcode vector had its handler installed when the
    /// table was loaded.
    pub closed spec fn spec_invalid_opcode_set(&self) -> bool {
        self.invalid_opcode_set
    }

    /// Whether the double-fault vector had its handler installed when the
    /// table was loaded.
    pub closed spec fn spec_double_fault_set(&self) -> bool {
        self.double_fault_set
    }

    /// Whether a vector had its handler installed when the table was loaded.
    pub fn is_installed(&self, vector: FaultVector) -> (r: bool)
        ensures
            vector == FaultVector::InvalidOpcode ==> r == self.spec_invalid_opcode_set(),
            vector == FaultVector::DoubleFault ==> r == self.spec_double_fault_set(),
    {
        match vector {
            FaultVector::InvalidOpcode => self.invalid_opcode_set,
            FaultVector::DoubleFault => self.double_fault_set,
        }
    }
}

/// Builds the boot-time fault table — both fault handlers installed — and
/// loads it.  This happens exactly once per boot; the returned table is the
/// one the CPU owns from here on.
pub fn init_interrupts() -> (t: LoadedInterruptTable)
    ensures
        t.spec_invalid_opcode_set(),
        t.spec_double_fault_set(),
{
    let mut table = InterruptTableBuilder::new();
    table.set_invalid_opcode_handler();
    table.set_double_fault_handler();
    table.load()
}

} // verus!
