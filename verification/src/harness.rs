//! The diagnostic hooks of a run: what each records, and what each tells the
//! engine to do next.

use vstd::prelude::*;

verus! {

/// What to tell the engine when an instruction does not decode.
#[derive(Clone, Copy, Debug, PartialEq, Eq, Structural)]
pub enum FaultPolicy {
    /// Keep the run alive, so that it can be traced further.
    Continue,
    /// End the run.
    Stop,
}

/// The kind of a memory access.
#[derive(Clone, Copy, Debug, PartialEq, Eq, Structural)]
pub enum AccessKind {
    Read,
    Write,
    Fetch,
}

/// One observation of a run.
#[derive(Clone, Copy, Debug, PartialEq, Eq)]
pub enum TraceEvent {
    /// An instruction of `size` bytes is about to run at `pc`.
    CodeStep { pc: u64, size: u32, sp: u64, r0: u64 },
    /// The instruction at `pc` does not decode; `bytes` are the four bytes
    /// there, where they could be read.
    InvalidInstruction { pc: u64, bytes: Option<[u8; 4]> },
    /// `len` bytes at `address` are accessed; `value` is what a write stores.
    MemoryAccess { kind: AccessKind, address: u64, len: usize, value: Option<i64>, sp: u64 },
}

/// The hooks of a run and the trace that they have written so far.
#[derive(Debug)]
pub struct ExecutionHarness {
    policy: FaultPolicy,
    trace: Vec<TraceEvent>,
}

impl ExecutionHarness {
    /// The observations made so far, oldest first.
    pub closed spec fn view(&self) -> Seq<TraceEvent> {
        self.trace@
    }

    /// What the harness tells the engine at an instruction that does not decode.
    pub closed spec fn policy(&self) -> FaultPolicy {
        self.policy
    }

    /// A harness that has observed nothing yet.
    pub fn new(policy: FaultPolicy) -> (harness: Self)
        ensures
            harness@ == Seq::<TraceEvent>::empty(),
            harness.policy() == policy,
    {
        ExecutionHarness { policy, trace: Vec::new() }
    }

    /// The hook for an instruction in the traced range: it records the
    /// program counter, the size of the instruction and the two registers.
    pub fn on_code_step(&mut self, pc: u64, size: u32, sp: u64, r0: u64)
        ensures
            final(self)@ == old(self)@.push(TraceEvent::CodeStep { pc, size, sp, r0 }),
            final(self).policy() == old(self).policy(),
    {
        self.trace.push(TraceEvent::CodeStep { pc, size, sp, r0 });
    }

    /// The hook for an instruction that does not decode: it records where,
    /// and the bytes found there if any, and answers whether the run goes on.
    pub fn on_invalid_instruction(&mut self, pc: u64, bytes: Option<[u8; 4]>) -> (resume: bool)
        ensures
            final(self)@ == old(self)@.push(TraceEvent::InvalidInstruction { pc, bytes }),
            final(self).policy() == old(self).policy(),
            resume == (old(self).policy() is Continue),
    {
        self.trace.push(TraceEvent::InvalidInstruction { pc, bytes });
        match self.policy {
            FaultPolicy::Continue => true,
            FaultPolicy::Stop => false,
        }
    }

    /// The hook for a memory access: it records the access, with the value
    /// for a write only, and always permits it, in or out of the mapped regions.
    pub fn on_memory_access(
        &mut self,
        kind: AccessKind,
        address: u64,
        len: usize,
        value: i64,
        sp: u64,
    ) -> (permit: bool)
        ensures
            final(self)@ == old(self)@.push(
                TraceEvent::MemoryAccess {
                    kind,
                    address,
                    len,
                    value: if kind is Write {
                        Some(value)
                    } else {
                        None
                    },
                    sp,
                },
            ),
            final(self).policy() == old(self).policy(),
            permit,
    {
        let stored = match kind {
            AccessKind::Write => Some(value),
            _ => None,
        };
        self.trace.push(TraceEvent::MemoryAccess { kind, address, len, value: stored, sp });
        true
    }

    /// The observations made so far, oldest first.
    pub fn trace(&self) -> (trace: &Vec<TraceEvent>)
        ensures
            trace@ == self@,
    {
        &self.trace
    }
}

} // verus!
