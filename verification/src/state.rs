//! The mathematical model of the machine.
//!
//! A [`VmState`] is the machine as the contracts see it: the memory cells,
//! the frame pointers, the segment bounds, the register values, the loaded
//! program and the program counter. [`spec_step`] is the machine's whole
//! instruction semantics as one total function from a state and an
//! instruction to the next state or the error that aborts the run; the
//! executable engine in [`crate::miku`] is proved to follow it step by
//! step. The frame laws at the bottom — stack discipline and call/return
//! symmetry — are consequences of [`spec_step`] alone.

use vstd::prelude::*;
use crate::error::{CellOp, MikuError, TypeTag};
use crate::inst::{Inst, SetOperand};
use crate::types::{spec_add, spec_divide, spec_equals, spec_is_zero, spec_multiply,
    spec_subtract, MikuType};
use crate::REGISTER_COUNT;

verus! {

/// The machine state: a linear memory of cells split into stack, data and
/// heap segments, a register file, the program, and the program counter.
///
/// The stack segment is `[0, stack_end)`, the data segment
/// `[stack_end, data_end)`, and the heap `[data_end, mem.len())`. The
/// current call frame is `[stack_base, stack_top)`.
pub struct VmState {
    /// The memory cells.
    pub mem: Seq<MikuType>,
    /// One past the top of the current frame; the next push lands here.
    pub stack_top: int,
    /// The floor of the current frame; a pop never crosses it.
    pub stack_base: int,
    /// One past the last stack address.
    pub stack_end: int,
    /// One past the last data-section address.
    pub data_end: int,
    /// The register values.
    pub regs: Seq<MikuType>,
    /// The loaded program.
    pub program: Seq<Inst>,
    /// The index of the next instruction; `pc == program.len()` is the
    /// terminal state.
    pub pc: int,
}

impl VmState {
    /// Well-formedness: the segments partition the memory in order, the
    /// frame lies inside the stack segment, the register file is full size,
    /// and the program counter is at most one past the last instruction.
    pub open spec fn wf(self) -> bool {
        &&& 0 <= self.stack_base <= self.stack_top <= self.stack_end <= self.data_end
            <= self.mem.len()
        &&& self.mem.len() <= usize::MAX
        &&& self.regs.len() == REGISTER_COUNT
        &&& self.program.len() <= usize::MAX
        &&& 0 <= self.pc <= self.program.len()
    }
}

/// A fresh machine: memory all null, both frame pointers at the bottom of
/// the stack segment, null registers, no program, and the counter at zero.
pub open spec fn spec_new_state(stack_size: int, data_size: int, heap_size: int) -> VmState {
    VmState {
        mem: Seq::new((stack_size + data_size + heap_size) as nat, |i: int| MikuType::NULL),
        stack_top: 0,
        stack_base: 0,
        stack_end: stack_size,
        data_end: stack_size + data_size,
        regs: Seq::new(REGISTER_COUNT as nat, |i: int| MikuType::NULL),
        program: Seq::empty(),
        pc: 0,
    }
}

/// The same state with the program counter advanced past the instruction
/// being executed. Every instruction starts this way; control flow then
/// overwrites the counter.
pub open spec fn spec_advance_pc(s: VmState) -> VmState {
    VmState { pc: s.pc + 1, ..s }
}

/// A push onto the stack: fails with [`MikuError::StackOverflow`] exactly
/// when the stack segment is full, else writes at `stack_top` and grows the
/// frame by one.
pub open spec fn spec_stack_push(s: VmState, entry: MikuType) -> Result<VmState, MikuError> {
    if s.stack_top == s.stack_end {
        Err(MikuError::StackOverflow)
    } else {
        Ok(
            VmState {
                mem: s.mem.update(s.stack_top, entry),
                stack_top: s.stack_top + 1,
                ..s
            },
        )
    }
}

/// A pop: fails with [`MikuError::StackUnderflow`] exactly when the current
/// frame is empty — a pop never crosses into the caller's frame — else
/// shrinks the frame by one. The cell itself is left in place.
pub open spec fn spec_stack_pop(s: VmState) -> Result<VmState, MikuError> {
    if s.stack_top == s.stack_base {
        Err(MikuError::StackUnderflow)
    } else {
        Ok(VmState { stack_top: s.stack_top - 1, ..s })
    }
}

/// A write-once store into the data section: fails with
/// [`MikuError::SegmentationFault`] outside the data segment's window and
/// with [`MikuError::UsedDataSpace`] when the slot already holds a
/// constant.
pub open spec fn spec_define_data(s: VmState, data: MikuType, address: usize) -> Result<
    VmState,
    MikuError,
> {
    if address < s.stack_end || address >= s.data_end {
        Err(MikuError::SegmentationFault)
    } else if s.mem[address as int] != MikuType::NULL {
        Err(MikuError::UsedDataSpace)
    } else {
        Ok(VmState { mem: s.mem.update(address as int, data), ..s })
    }
}

/// A pointer dereference: the cell must carry the pointer tag (`U64`) and
/// an address inside the memory; a null cell is a segmentation fault, any
/// other tag an invalid pointer.
pub open spec fn spec_deref_ptr(s: VmState, ptr: MikuType) -> Result<MikuType, MikuError> {
    match ptr {
        MikuType::U64(a) => if a < s.mem.len() {
            Ok(s.mem[a as int])
        } else {
            Err(MikuError::SegmentationFault)
        },
        MikuType::NULL => Err(MikuError::SegmentationFault),
        _ => Err(MikuError::InvalidPointerType(ptr)),
    }
}

/// A register write: fails with [`MikuError::RegisterOutOfBounds`] exactly
/// when the identifier is outside the register file.
pub open spec fn spec_set_register(s: VmState, id: usize, value: MikuType) -> Result<
    VmState,
    MikuError,
> {
    if id >= s.regs.len() {
        Err(MikuError::RegisterOutOfBounds(id))
    } else {
        Ok(VmState { regs: s.regs.update(id as int, value), ..s })
    }
}

/// A register read: fails with [`MikuError::RegisterOutOfBounds`] exactly
/// when the identifier is outside the register file.
pub open spec fn spec_read_register(s: VmState, id: usize) -> Result<MikuType, MikuError> {
    if id >= s.regs.len() {
        Err(MikuError::RegisterOutOfBounds(id))
    } else {
        Ok(s.regs[id as int])
    }
}

/// The register-load instruction: resolve the source operand (an immediate
/// cell or a register read), dereference it if asked, then write the
/// target register. Each stage's error aborts the instruction.
pub open spec fn spec_setreg_step(s: VmState, rid: usize, op2: SetOperand, deref: bool) -> Result<
    VmState,
    MikuError,
> {
    let src = match op2 {
        SetOperand::Value(c) => Ok(c),
        SetOperand::Register(r2) => spec_read_register(s, r2),
    };
    match src {
        Err(e) => Err(e),
        Ok(v0) => {
            let resolved = if deref {
                spec_deref_ptr(s, v0)
            } else {
                Ok(v0)
            };
            match resolved {
                Err(e) => Err(e),
                Ok(v) => spec_set_register(s, rid, v),
            }
        },
    }
}

/// One arithmetic or comparison instruction: pop two cells and push the
/// result, so the frame shrinks by one. The cell beneath is the left
/// operand and the more recently pushed top cell the right operand, so
/// `[Push(x), Push(y), Div]` computes `x / y` — with `y` the divisor. A
/// comparison pushes `U8(0)` for equal and `U8(1)` for unequal — the
/// inverted boolean convention the conditional jumps rely on.
pub open spec fn spec_binop_step(s: VmState, op: CellOp) -> Result<VmState, MikuError> {
    if s.stack_top - s.stack_base < 2 {
        Err(MikuError::StackUnderflow)
    } else {
        let a = s.mem[s.stack_top - 2];
        let b = s.mem[s.stack_top - 1];
        let computed = match op {
            CellOp::Add => spec_add(a, b),
            CellOp::Subtract => spec_subtract(a, b),
            CellOp::Multiply => spec_multiply(a, b),
            CellOp::Divide => spec_divide(a, b),
            CellOp::Equals => match spec_equals(a, b) {
                Err(e) => Err(e),
                Ok(eq) => Ok(
                    MikuType::U8(
                        if eq {
                            0
                        } else {
                            1
                        },
                    ),
                ),
            },
        };
        match computed {
            Err(e) => Err(e),
            Ok(v) => Ok(
                VmState {
                    mem: s.mem.update(s.stack_top - 2, v),
                    stack_top: s.stack_top - 1,
                    ..s
                },
            ),
        }
    }
}

/// A conditional jump: the target must be inside the program, one cell is
/// popped whichever way the branch goes, and the branch compares the cell
/// against the zero of its own tag. A null cell has no zero, which is a
/// type error.
pub open spec fn spec_branch_step(s: VmState, target: usize, jump_if_zero: bool) -> Result<
    VmState,
    MikuError,
> {
    if target >= s.program.len() {
        Err(MikuError::JumpOutOfBounds(target))
    } else if s.stack_top == s.stack_base {
        Err(MikuError::StackUnderflow)
    } else {
        let v = s.mem[s.stack_top - 1];
        if v is NULL {
            Err(
                MikuError::UndefinedOperationBetweenTypesError(
                    CellOp::Equals,
                    TypeTag::Null,
                    TypeTag::Null,
                ),
            )
        } else {
            Ok(
                VmState {
                    stack_top: s.stack_top - 1,
                    pc: if spec_is_zero(v) == jump_if_zero {
                        target as int
                    } else {
                        s.pc
                    },
                    ..s
                },
            )
        }
    }
}

/// A return with no value: the two bookkeeping cells just below the frame
/// floor — the saved caller base on top, the saved return address beneath —
/// are read back. Both must carry the pointer tag; the restored base must
/// not exceed the collapsed stack top, and the return address must be at
/// most one past the program's end. The whole frame's locals are discarded.
pub open spec fn spec_ret_step(s: VmState) -> Result<VmState, MikuError> {
    if s.stack_base < 2 {
        Err(MikuError::StackUnderflow)
    } else {
        let saved_base = s.mem[s.stack_base - 1];
        let saved_ret = s.mem[s.stack_base - 2];
        match (saved_base, saved_ret) {
            (MikuType::U64(b), MikuType::U64(r)) => if b > s.stack_base - 2 {
                Err(MikuError::SegmentationFault)
            } else if r > s.program.len() {
                Err(
                    MikuError::JumpOutOfBounds(
                        if r > usize::MAX as u64 {
                            usize::MAX
                        } else {
                            r as usize
                        },
                    ),
                )
            } else {
                Ok(
                    VmState {
                        stack_top: s.stack_base - 2,
                        stack_base: b as int,
                        pc: r as int,
                        ..s
                    },
                )
            },
            (MikuType::U64(_), other) => Err(MikuError::InvalidPointerType(other)),
            (other, _) => Err(MikuError::InvalidPointerType(other)),
        }
    }
}

/// The swap instruction: exchange the two topmost frame entries.
pub open spec fn spec_swap_step(s: VmState) -> Result<VmState, MikuError> {
    if s.stack_top - s.stack_base < 2 {
        Err(MikuError::StackUnderflow)
    } else {
        Ok(
            VmState {
                mem: s.mem.update(s.stack_top - 1, s.mem[s.stack_top - 2]).update(
                    s.stack_top - 2,
                    s.mem[s.stack_top - 1],
                ),
                ..s
            },
        )
    }
}

/// The call instruction: the target must be inside the program and the
/// stack must have room for two bookkeeping cells. The return address
/// (already-advanced counter) is pushed first, the caller's frame base
/// second, and the new frame begins above them.
pub open spec fn spec_call_step(s: VmState, target: usize) -> Result<VmState, MikuError> {
    if target >= s.program.len() {
        Err(MikuError::JumpOutOfBounds(target))
    } else if s.stack_end - s.stack_top < 2 {
        Err(MikuError::StackOverflow)
    } else {
        Ok(
            VmState {
                mem: s.mem.update(s.stack_top, MikuType::U64(s.pc as u64)).update(
                    s.stack_top + 1,
                    MikuType::U64(s.stack_base as u64),
                ),
                stack_top: s.stack_top + 2,
                stack_base: s.stack_top + 2,
                pc: target as int,
                ..s
            },
        )
    }
}

/// The value-returning return: the frame's top cell is captured before the
/// teardown of [`spec_ret_step`] and pushed onto the caller's restored
/// frame afterwards.
pub open spec fn spec_retv_step(s: VmState) -> Result<VmState, MikuError> {
    if s.stack_top == s.stack_base {
        Err(MikuError::StackUnderflow)
    } else {
        let v = s.mem[s.stack_top - 1];
        match spec_ret_step(s) {
            Err(e) => Err(e),
            Ok(s2) => Ok(
                VmState { mem: s2.mem.update(s2.stack_top, v), stack_top: s2.stack_top + 1, ..s2 },
            ),
        }
    }
}

/// One fetch-execute step: the program counter is advanced first, so on an
/// error the counter reads one past the faulting instruction; the
/// instruction's data effect, or its error, comes second. The executable
/// engine applies instructions transactionally: on an error nothing but
/// the advanced counter has changed.
pub open spec fn spec_step(s: VmState, inst: Inst) -> Result<VmState, MikuError> {
    let s1 = spec_advance_pc(s);
    match inst {
        Inst::Push(c) => spec_stack_push(s1, c),
        Inst::Pop => spec_stack_pop(s1),
        Inst::Def(c, a) => spec_define_data(s1, c, a),
        Inst::SetReg(rid, op2, deref) => spec_setreg_step(s1, rid, op2, deref),
        Inst::DupT(x) => if x >= s1.stack_top - s1.stack_base {
            Err(MikuError::StackIndexOutOfBounds(x))
        } else {
            spec_stack_push(s1, s1.mem[s1.stack_top - 1 - x])
        },
        Inst::DupB(x) => if x >= s1.stack_top - s1.stack_base {
            Err(MikuError::StackIndexOutOfBounds(x))
        } else {
            spec_stack_push(s1, s1.mem[s1.stack_base + x])
        },
        Inst::Swap => spec_swap_step(s1),
        Inst::Plus => spec_binop_step(s1, CellOp::Add),
        Inst::Minus => spec_binop_step(s1, CellOp::Subtract),
        Inst::Mult => spec_binop_step(s1, CellOp::Multiply),
        Inst::Div => spec_binop_step(s1, CellOp::Divide),
        Inst::Eq => spec_binop_step(s1, CellOp::Equals),
        Inst::Jmp(t) => if t >= s1.program.len() {
            Err(MikuError::JumpOutOfBounds(t))
        } else {
            Ok(VmState { pc: t as int, ..s1 })
        },
        Inst::JmpZ(t) => spec_branch_step(s1, t, true),
        Inst::JmpNZ(t) => spec_branch_step(s1, t, false),
        Inst::Call(t) => spec_call_step(s1, t),
        Inst::Ret => spec_ret_step(s1),
        Inst::RetV => spec_retv_step(s1),
    }
}

/// A successful step keeps the state well formed and never touches the
/// program, the segment layout, or the memory size.
pub proof fn lemma_step_wf(s: VmState, inst: Inst)
    requires
        s.wf(),
        s.pc < s.program.len(),
    ensures
        spec_step(s, inst) matches Ok(s2) ==> s2.wf() && s2.program == s.program && s2.stack_end
            == s.stack_end && s2.data_end == s.data_end && s2.mem.len() == s.mem.len()
            && s2.regs.len() == s.regs.len(),
{
}

/// Zero or more successful steps lead from `a` to `b`.
pub open spec fn spec_reaches(a: VmState, b: VmState, n: nat) -> bool
    decreases n,
{
    if n == 0 {
        a == b
    } else {
        exists|mid: VmState|
            spec_reaches(a, mid, (n - 1) as nat) && mid.pc < mid.program.len() && #[trigger]
            spec_step(mid, mid.program[mid.pc]) == Ok::<VmState, MikuError>(b)
    }
}

/// Pushing each value of a sequence in turn.
pub open spec fn spec_push_all(s: VmState, vals: Seq<MikuType>) -> Result<VmState, MikuError>
    decreases vals.len(),
{
    if vals.len() == 0 {
        Ok(s)
    } else {
        match spec_stack_push(s, vals[0]) {
            Err(e) => Err(e),
            Ok(s2) => spec_push_all(s2, vals.skip(1)),
        }
    }
}

/// Popping `n` entries in turn.
pub open spec fn spec_pop_n(s: VmState, n: nat) -> Result<VmState, MikuError>
    decreases n,
{
    if n == 0 {
        Ok(s)
    } else {
        match spec_stack_pop(s) {
            Err(e) => Err(e),
            Ok(s2) => spec_pop_n(s2, (n - 1) as nat),
        }
    }
}

/// With room for them, a sequence of pushes succeeds and moves only the
/// stack top, by exactly its length.
proof fn lemma_push_all_effect(s: VmState, vals: Seq<MikuType>)
    requires
        s.stack_top + vals.len() <= s.stack_end,
    ensures
        spec_push_all(s, vals) is Ok,
        spec_push_all(s, vals)->Ok_0.stack_top == s.stack_top + vals.len(),
        spec_push_all(s, vals)->Ok_0.stack_base == s.stack_base,
        spec_push_all(s, vals)->Ok_0.stack_end == s.stack_end,
    decreases vals.len(),
{
    if vals.len() == 0 {
    } else {
        lemma_push_all_effect(spec_stack_push(s, vals[0])->Ok_0, vals.skip(1));
    }
}

/// With at least `n` entries in the frame, `n` pops succeed and move only
/// the stack top, by exactly `n`.
proof fn lemma_pop_n_effect(s: VmState, n: nat)
    requires
        s.stack_base <= s.stack_top - n,
    ensures
        spec_pop_n(s, n) is Ok,
        spec_pop_n(s, n)->Ok_0.stack_top == s.stack_top - n,
        spec_pop_n(s, n)->Ok_0.stack_base == s.stack_base,
    decreases n,
{
    if n == 0 {
    } else {
        lemma_pop_n_effect(spec_stack_pop(s)->Ok_0, (n - 1) as nat);
    }
}

/// Stack discipline: a sequence of pushes that fits the stack segment,
/// followed by the same number of pops, returns the stack top and the
/// frame base to exactly their starting values; and when the frame started
/// empty, one further pop fails with [`MikuError::StackUnderflow`].
pub proof fn lemma_stack_discipline(s: VmState, vals: Seq<MikuType>)
    requires
        s.wf(),
        s.stack_top + vals.len() <= s.stack_end,
    ensures
        spec_push_all(s, vals) is Ok,
        ({
            let pushed = spec_push_all(s, vals)->Ok_0;
            let popped = spec_pop_n(pushed, vals.len());
            &&& popped is Ok
            &&& popped->Ok_0.stack_top == s.stack_top
            &&& popped->Ok_0.stack_base == s.stack_base
            &&& (s.stack_top == s.stack_base ==> spec_stack_pop(popped->Ok_0) == Err::<
                VmState,
                MikuError,
            >(MikuError::StackUnderflow))
        }),
{
    lemma_push_all_effect(s, vals);
    lemma_pop_n_effect(spec_push_all(s, vals)->Ok_0, vals.len());
}

/// Pushing onto a machine whose stack segment is full fails with
/// [`MikuError::StackOverflow`], whatever the value.
pub proof fn lemma_push_full_overflows(s: VmState, v: MikuType)
    requires
        s.stack_top == s.stack_end,
    ensures
        spec_stack_push(s, v) == Err::<VmState, MikuError>(MikuError::StackOverflow),
{
}

/// Call/return symmetry with a plain return: execute `Call(t)` from `s0`,
/// let the body reach any state that keeps the frame base and the two
/// bookkeeping cells below it, then execute `Ret`. The counter lands on
/// the instruction after the call, and the frame base and stack top are
/// exactly their pre-call values.
pub proof fn lemma_call_ret_symmetry(s0: VmState, t: usize, s_body: VmState)
    requires
        s0.wf(),
        s0.pc < s0.program.len(),
        t < s0.program.len(),
        s0.stack_end - s0.stack_top >= 2,
        ({
            let s1 = spec_step(s0, Inst::Call(t))->Ok_0;
            &&& s_body.program == s0.program
            &&& s_body.stack_base == s1.stack_base
            &&& s_body.stack_base <= s_body.stack_top
            &&& s_body.mem.len() == s1.mem.len()
            &&& s_body.mem[s1.stack_base - 1] == s1.mem[s1.stack_base - 1]
            &&& s_body.mem[s1.stack_base - 2] == s1.mem[s1.stack_base - 2]
        }),
    ensures
        spec_step(s0, Inst::Call(t)) is Ok,
        spec_step(s_body, Inst::Ret) is Ok,
        ({
            let s2 = spec_step(s_body, Inst::Ret)->Ok_0;
            &&& s2.pc == s0.pc + 1
            &&& s2.stack_base == s0.stack_base
            &&& s2.stack_top == s0.stack_top
        }),
{
}

/// Call/return symmetry with a value: as [`lemma_call_ret_symmetry`], but
/// the body's frame must hold at least one cell, the stack top lands one
/// above its pre-call value, and the cell pushed there is exactly the
/// frame's top cell at the moment of the return.
pub proof fn lemma_call_retv_symmetry(s0: VmState, t: usize, s_body: VmState)
    requires
        s0.wf(),
        s0.pc < s0.program.len(),
        t < s0.program.len(),
        s0.stack_end - s0.stack_top >= 2,
        ({
            let s1 = spec_step(s0, Inst::Call(t))->Ok_0;
            &&& s_body.program == s0.program
            &&& s_body.stack_base == s1.stack_base
            &&& s_body.stack_base < s_body.stack_top
            &&& s_body.mem.len() == s1.mem.len()
            &&& s_body.mem[s1.stack_base - 1] == s1.mem[s1.stack_base - 1]
            &&& s_body.mem[s1.stack_base - 2] == s1.mem[s1.stack_base - 2]
        }),
    ensures
        spec_step(s0, Inst::Call(t)) is Ok,
        spec_step(s_body, Inst::RetV) is Ok,
        ({
            let s2 = spec_step(s_body, Inst::RetV)->Ok_0;
            &&& s2.pc == s0.pc + 1
            &&& s2.stack_base == s0.stack_base
            &&& s2.stack_top == s0.stack_top + 1
            &&& s2.mem[s0.stack_top] == s_body.mem[s_body.stack_top - 1]
        }),
{
}

/// No instruction ever reports the budget error: a run that ends with
/// [`MikuError::ExecutionLimitExceeded`] was stopped by the engine's
/// instruction-count guard, never by the semantics.
pub proof fn lemma_step_never_reports_budget(s: VmState, inst: Inst)
    ensures
        spec_step(s, inst) != Err::<VmState, MikuError>(MikuError::ExecutionLimitExceeded),
{
}

} // verus!
