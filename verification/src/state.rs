//! Architectural state of a hart: registers, program counter, trap latch.
use vstd::prelude::*;

verus! {

#[derive(Debug, PartialEq, Eq, Clone, Copy, Structural)]
pub enum BreakCause {
    DirectBranch,
    IndirectBranch,
    Ecall,
    Ebreak,
}

#[derive(Debug)]
pub struct State {
    pub pc: u64,
    pub x: [u64; 32],
    pub break_on: Option<BreakCause>,
    /// Machine exception program counter, the one control register that
    /// holds a value.
    pub mepc: u64,
}

/// The state as plain values: the register file is a sequence of 32 words.
pub struct StateView {
    pub pc: u64,
    pub x: Seq<u64>,
    pub break_on: Option<BreakCause>,
    pub mepc: u64,
}

impl View for State {
    type V = StateView;

    open spec fn view(&self) -> StateView {
        StateView { pc: self.pc, x: self.x@, break_on: self.break_on, mepc: self.mepc }
    }
}

impl StateView {
    /// All registers, the program counter and the control register are
    /// zero and no trap is latched.
    pub open spec fn zero() -> StateView {
        StateView { pc: 0, x: Seq::new(32, |i: int| 0u64), break_on: None, mepc: 0 }
    }

    pub open spec fn wf(self) -> bool {
        self.x.len() == 32
    }

    /// The state with register `rd` holding `value`.
    pub open spec fn with_reg(self, rd: u8, value: u64) -> StateView {
        StateView { x: self.x.update(rd as int, value), ..self }
    }

    /// The state with the program counter at `pc`.
    pub open spec fn with_pc(self, pc: u64) -> StateView {
        StateView { pc, ..self }
    }

    /// The state with `cause` in the trap latch.
    pub open spec fn with_break(self, cause: Option<BreakCause>) -> StateView {
        StateView { break_on: cause, ..self }
    }

    /// The state with the control register holding `mepc`.
    pub open spec fn with_mepc(self, mepc: u64) -> StateView {
        StateView { mepc, ..self }
    }
}

impl State {
    /// The state of a hart before anything is loaded.
    pub fn zero() -> (s: State)
        ensures
            s@ == StateView::zero(),
    {
        let s = State { pc: 0, x: [0u64; 32], break_on: None, mepc: 0 };
        assert(s.x@ =~= Seq::new(32, |i: int| 0u64));
        s
    }

    /// Reads register `r`.
    pub fn reg(&self, r: u8) -> (v: u64)
        requires
            r < 32,
        ensures
            v == self@.x[r as int],
    {
        self.x[r as usize]
    }

    /// Writes `value` to register `rd`.
    pub fn set_reg(&mut self, rd: u8, value: u64)
        requires
            rd < 32,
        ensures
            final(self)@ == old(self)@.with_reg(rd, value),
    {
        self.x[rd as usize] = value;
    }
}

impl Default for State {
    fn default() -> (s: State)
        ensures
            s@ == StateView::zero(),
    {
        State::zero()
    }
}

/// Every state has 32 registers.
pub proof fn lemma_state_wf(s: State)
    ensures
        s@.wf(),
{
}

} // verus!
