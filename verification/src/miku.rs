//! The execution engine.
//!
//! A [`MikuVM`] owns a linear memory of cells partitioned at construction
//! into stack, data and heap segments, a file of six registers, and one
//! loaded program. [`MikuVM::run_program`] drives the fetch-execute loop to
//! termination or to the first error. Every step the engine takes is proved
//! equal to the specification transition [`crate::state::spec_step`]; on an
//! error, nothing but the already-advanced program counter has changed.
//!
//! A hostile or buggy program could loop forever, so a run is bounded by an
//! instruction-count budget, a constructor-adjustable guard that reports
//! [`MikuError::ExecutionLimitExceeded`] when exhausted.

use vstd::prelude::*;
use crate::error::{CellOp, MikuError, TypeTag};
use crate::inst::{Inst, SetOperand};
use crate::register::Register;
use crate::state::{
    lemma_step_wf, spec_advance_pc, spec_binop_step, spec_branch_step, spec_call_step,
    spec_define_data, spec_deref_ptr, spec_new_state, spec_reaches, spec_read_register, spec_ret_step,
    spec_retv_step, spec_set_register, spec_setreg_step, spec_stack_pop, spec_stack_push,
    spec_step, spec_swap_step, VmState,
};
use crate::types::MikuType;
use crate::{DATA_END, DATA_START, HEAP_END, HEAP_START, REGISTER_COUNT, STACK_END};

verus! {

/// How many instructions a run may execute before it is stopped, unless a
/// different budget is configured.
pub const DEFAULT_STEP_BUDGET: usize = 1000000;

/// The virtual machine.
pub struct MikuVM {
    /// Points one past the top of the current stack frame.
    stack_top: usize,
    /// Points to the base of the current stack frame.
    stack_base: usize,
    /// The linear memory: stack, data and heap segments in that order.
    memory: Vec<MikuType>,
    /// One past the last stack address.
    stack_end: usize,
    /// One past the last data-section address.
    data_end: usize,
    /// The six general-purpose registers.
    registers: Vec<Register>,
    /// The loaded program.
    program: Vec<Inst>,
    /// The program counter: the index of the next instruction.
    pc: usize,
    /// The instruction-count budget of one run.
    step_budget: usize,
}

impl View for MikuVM {
    type V = VmState;

    closed spec fn view(&self) -> VmState {
        VmState {
            mem: self.memory@,
            stack_top: self.stack_top as int,
            stack_base: self.stack_base as int,
            stack_end: self.stack_end as int,
            data_end: self.data_end as int,
            regs: Seq::new(self.registers@.len(), |i: int| self.registers@[i].value),
            program: self.program@,
            pc: self.pc as int,
        }
    }
}

impl MikuVM {
    /// The machine's internal invariant: the model state is well formed and
    /// register slot `i` carries identifier `i`.
    pub closed spec fn inv(&self) -> bool {
        &&& self@.wf()
        &&& forall|i: int|
            0 <= i < self.registers@.len() ==> (#[trigger] self.registers@[i]).ident == i as u8
    }

    /// The instruction-count budget a run starts with.
    pub closed spec fn spec_step_budget(&self) -> usize {
        self.step_budget
    }

    /// A fresh machine with the given segment sizes: all memory null, both
    /// frame pointers at the bottom of the stack segment, null registers,
    /// no program loaded.
    pub fn with_layout(stack_size: usize, data_size: usize, heap_size: usize) -> (vm: MikuVM)
        requires
            stack_size + data_size + heap_size <= usize::MAX,
        ensures
            vm.inv(),
            vm@ == spec_new_state(stack_size as int, data_size as int, heap_size as int),
            vm@.program.len() == 0,
            vm.spec_step_budget() == DEFAULT_STEP_BUDGET,
    {
        let total = stack_size + data_size + heap_size;
        let mut memory: Vec<MikuType> = Vec::new();
        let mut i: usize = 0;
        while i < total
            invariant
                i <= total,
                memory@.len() == i,
                forall|j: int| 0 <= j < i ==> memory@[j] == MikuType::NULL,
            decreases total - i,
        {
            memory.push(MikuType::NULL);
            i = i + 1;
        }
        let mut registers: Vec<Register> = Vec::new();
        let mut id: u8 = 0;
        while (id as usize) < REGISTER_COUNT
            invariant
                id as int <= REGISTER_COUNT as int,
                registers@.len() == id as int,
                forall|j: int|
                    0 <= j < id as int ==> (#[trigger] registers@[j]).ident == j as u8
                        && registers@[j].value == MikuType::NULL,
            decreases REGISTER_COUNT - id as int,
        {
            registers.push(Register::new(id, MikuType::NULL));
            id = id + 1;
        }
        let vm = MikuVM {
            stack_top: 0,
            stack_base: 0,
            memory,
            stack_end: stack_size,
            data_end: stack_size + data_size,
            registers,
            program: Vec::new(),
            pc: 0,
            step_budget: DEFAULT_STEP_BUDGET,
        };
        proof {
            assert(vm@.mem =~= spec_new_state(
                stack_size as int,
                data_size as int,
                heap_size as int,
            ).mem);
            assert(vm@.regs =~= spec_new_state(
                stack_size as int,
                data_size as int,
                heap_size as int,
            ).regs);
            assert(vm@.program =~= Seq::<Inst>::empty());
        }
        vm
    }

    /// A fresh machine with the default layout: a 1024-cell memory, 30% of
    /// it stack, 30% data section, the rest heap.
    pub fn new() -> (vm: MikuVM)
        ensures
            vm.inv(),
            vm@ == spec_new_state(
                STACK_END as int,
                (DATA_END - DATA_START) as int,
                (HEAP_END - HEAP_START) as int,
            ),
            vm@.program.len() == 0,
    {
        MikuVM::with_layout(STACK_END, DATA_END - DATA_START, HEAP_END - HEAP_START)
    }

    /// Replaces the instruction-count budget of a run. The machine's
    /// observable state is untouched.
    pub fn set_step_budget(&mut self, budget: usize)
        requires
            old(self).inv(),
        ensures
            final(self).inv(),
            final(self)@ == old(self)@,
            final(self).spec_step_budget() == budget,
    {
        self.step_budget = budget;
    }

    /// Appends an instruction to the program.
    pub fn push_inst(&mut self, inst: Inst)
        requires
            old(self).inv(),
            old(self)@.program.len() < usize::MAX,
        ensures
            final(self).inv(),
            final(self)@ == (VmState { program: old(self)@.program.push(inst), ..old(self)@ }),
    {
        self.program.push(inst);
    }

    /// Pushes a cell onto the stack; see [`spec_stack_push`] for exactly
    /// when this overflows.
    pub fn stack_push(&mut self, stack_entry: MikuType) -> (r: Result<(), MikuError>)
        requires
            old(self).inv(),
        ensures
            final(self).inv(),
            match spec_stack_push(old(self)@, stack_entry) {
                Ok(s2) => r == Ok::<(), MikuError>(()) && final(self)@ == s2,
                Err(e) => r == Err::<(), MikuError>(e) && final(self)@ == old(self)@,
            },
    {
        if self.stack_top == self.stack_end {
            return Err(MikuError::StackOverflow);
        }
        self.memory[self.stack_top] = stack_entry;
        self.stack_top = self.stack_top + 1;
        Ok(())
    }

    /// Pops the top entry off the current frame; see [`spec_stack_pop`]
    /// for exactly when this underflows. The cell itself stays in memory.
    pub fn stack_pop(&mut self) -> (r: Result<(), MikuError>)
        requires
            old(self).inv(),
        ensures
            final(self).inv(),
            match spec_stack_pop(old(self)@) {
                Ok(s2) => r == Ok::<(), MikuError>(()) && final(self)@ == s2,
                Err(e) => r == Err::<(), MikuError>(e) && final(self)@ == old(self)@,
            },
    {
        if self.stack_base == self.stack_top {
            return Err(MikuError::StackUnderflow);
        }
        self.stack_top = self.stack_top - 1;
        Ok(())
    }

    /// Writes a constant into the data section, once; see
    /// [`spec_define_data`] for the bounds and write-once errors.
    pub fn define_data(&mut self, data: MikuType, address: usize) -> (r: Result<(), MikuError>)
        requires
            old(self).inv(),
        ensures
            final(self).inv(),
            match spec_define_data(old(self)@, data, address) {
                Ok(s2) => r == Ok::<(), MikuError>(()) && final(self)@ == s2,
                Err(e) => r == Err::<(), MikuError>(e) && final(self)@ == old(self)@,
            },
    {
        if address < self.stack_end || address >= self.data_end {
            return Err(MikuError::SegmentationFault);
        }
        match self.memory[address] {
            MikuType::NULL => {
                self.memory[address] = data;
            },
            _ => {
                return Err(MikuError::UsedDataSpace);
            },
        }
        Ok(())
    }

    /// Reads the cell a pointer refers to; see [`spec_deref_ptr`] for the
    /// pointer-tag and bounds errors.
    pub fn deref_ptr(&self, ptr: MikuType) -> (r: Result<MikuType, MikuError>)
        requires
            self.inv(),
        ensures
            r == spec_deref_ptr(self@, ptr),
    {
        match ptr {
            MikuType::U64(a) => {
                if a < self.memory.len() as u64 {
                    Ok(self.memory[a as usize])
                } else {
                    Err(MikuError::SegmentationFault)
                }
            },
            MikuType::NULL => Err(MikuError::SegmentationFault),
            _ => Err(MikuError::InvalidPointerType(ptr)),
        }
    }

    /// Stores a value into a register; see [`spec_set_register`] for the
    /// bounds error.
    pub fn set_register(&mut self, id: usize, value: MikuType) -> (r: Result<(), MikuError>)
        requires
            old(self).inv(),
        ensures
            final(self).inv(),
            match spec_set_register(old(self)@, id, value) {
                Ok(s2) => r == Ok::<(), MikuError>(()) && final(self)@ == s2,
                Err(e) => r == Err::<(), MikuError>(e) && final(self)@ == old(self)@,
            },
    {
        if id >= self.registers.len() {
            return Err(MikuError::RegisterOutOfBounds(id));
        }
        let reg = &mut self.registers[id];
        reg.set(value);
        proof {
            assert(self@.regs =~= old(self)@.regs.update(id as int, value));
        }
        Ok(())
    }

    /// Reads a register's value; see [`spec_read_register`] for the bounds
    /// error.
    pub fn read_register(&self, id: usize) -> (r: Result<MikuType, MikuError>)
        requires
            self.inv(),
        ensures
            r == spec_read_register(self@, id),
    {
        if id >= self.registers.len() {
            return Err(MikuError::RegisterOutOfBounds(id));
        }
        Ok(self.registers[id].value())
    }

    /// Advances the program counter to the next instruction.
    pub fn inc_pc(&mut self)
        requires
            old(self).inv(),
            old(self)@.pc < old(self)@.program.len(),
        ensures
            final(self).inv(),
            final(self)@ == spec_advance_pc(old(self)@),
    {
        self.pc = self.pc + 1;
    }

    /// A copy of the stack segment of the memory.
    pub fn stack(&self) -> (r: Vec<MikuType>)
        requires
            self.inv(),
        ensures
            r@ == self@.mem.subrange(0, self@.stack_end),
    {
        vstd::slice::slice_to_vec(&self.memory.as_slice()[0..self.stack_end])
    }

    /// A copy of the data segment of the memory, which holds the program's
    /// constants.
    pub fn data_mem(&self) -> (r: Vec<MikuType>)
        requires
            self.inv(),
        ensures
            r@ == self@.mem.subrange(self@.stack_end, self@.data_end),
    {
        vstd::slice::slice_to_vec(&self.memory.as_slice()[self.stack_end..self.data_end])
    }

    /// A copy of the heap segment of the memory.
    pub fn heap_mem(&self) -> (r: Vec<MikuType>)
        requires
            self.inv(),
        ensures
            r@ == self@.mem.subrange(self@.data_end, self@.mem.len() as int),
    {
        vstd::slice::slice_to_vec(&self.memory.as_slice()[self.data_end..self.memory.len()])
    }

    /// The program counter: the index of the next instruction to execute.
    pub fn pc(&self) -> (r: usize)
        ensures
            r as int == self@.pc,
    {
        self.pc
    }

    /// One past the top of the current stack frame.
    pub fn stack_top(&self) -> (r: usize)
        ensures
            r as int == self@.stack_top,
    {
        self.stack_top
    }

    /// The base of the current stack frame.
    pub fn stack_base(&self) -> (r: usize)
        ensures
            r as int == self@.stack_base,
    {
        self.stack_base
    }

    /// The register file.
    pub fn registers(&self) -> (r: &Vec<Register>)
        requires
            self.inv(),
        ensures
            r@.len() == REGISTER_COUNT,
            forall|i: int|
                0 <= i < r@.len() ==> (#[trigger] r@[i]).value == self@.regs[i] && r@[i].ident
                    == i as u8,
    {
        &self.registers
    }

    /// Swaps the two topmost frame entries.
    fn step_swap(&mut self) -> (r: Result<(), MikuError>)
        requires
            old(self).inv(),
        ensures
            final(self).inv(),
            match spec_swap_step(old(self)@) {
                Ok(s2) => r == Ok::<(), MikuError>(()) && final(self)@ == s2,
                Err(e) => r == Err::<(), MikuError>(e) && final(self)@ == old(self)@,
            },
    {
        if self.stack_top - self.stack_base < 2 {
            return Err(MikuError::StackUnderflow);
        }
        let a = self.memory[self.stack_top - 1];
        let b = self.memory[self.stack_top - 2];
        self.memory[self.stack_top - 1] = b;
        self.memory[self.stack_top - 2] = a;
        Ok(())
    }

    /// Pops two cells, applies one arithmetic or comparison operation, and
    /// pushes the result; see [`spec_binop_step`].
    fn step_binop(&mut self, op: CellOp) -> (r: Result<(), MikuError>)
        requires
            old(self).inv(),
        ensures
            final(self).inv(),
            match spec_binop_step(old(self)@, op) {
                Ok(s2) => r == Ok::<(), MikuError>(()) && final(self)@ == s2,
                Err(e) => r == Err::<(), MikuError>(e) && final(self)@ == old(self)@,
            },
    {
        if self.stack_top - self.stack_base < 2 {
            return Err(MikuError::StackUnderflow);
        }
        let a = self.memory[self.stack_top - 2];
        let b = self.memory[self.stack_top - 1];
        let computed = match op {
            CellOp::Add => MikuType::add(a, b),
            CellOp::Subtract => MikuType::subtract(a, b),
            CellOp::Multiply => MikuType::multiply(a, b),
            CellOp::Divide => MikuType::divide(a, b),
            CellOp::Equals => match MikuType::equals(a, b) {
                Ok(eq) => Ok(
                    MikuType::U8(
                        if eq {
                            0
                        } else {
                            1
                        },
                    ),
                ),
                Err(e) => Err(e),
            },
        };
        match computed {
            Ok(v) => {
                self.memory[self.stack_top - 2] = v;
                self.stack_top = self.stack_top - 1;
                Ok(())
            },
            Err(e) => Err(e),
        }
    }

    /// Pops one cell and jumps when its zero test matches the branch's
    /// polarity; see [`spec_branch_step`].
    fn step_branch(&mut self, target: usize, jump_if_zero: bool) -> (r: Result<(), MikuError>)
        requires
            old(self).inv(),
        ensures
            final(self).inv(),
            match spec_branch_step(old(self)@, target, jump_if_zero) {
                Ok(s2) => r == Ok::<(), MikuError>(()) && final(self)@ == s2,
                Err(e) => r == Err::<(), MikuError>(e) && final(self)@ == old(self)@,
            },
    {
        if target >= self.program.len() {
            return Err(MikuError::JumpOutOfBounds(target));
        }
        if self.stack_top == self.stack_base {
            return Err(MikuError::StackUnderflow);
        }
        let v = self.memory[self.stack_top - 1];
        match v {
            MikuType::NULL => {
                return Err(
                    MikuError::UndefinedOperationBetweenTypesError(
                        CellOp::Equals,
                        TypeTag::Null,
                        TypeTag::Null,
                    ),
                );
            },
            _ => {},
        }
        self.stack_top = self.stack_top - 1;
        if v.is_zero() == jump_if_zero {
            self.pc = target;
        }
        Ok(())
    }

    /// Resolves the source operand of a register load and writes the
    /// target register; see [`spec_setreg_step`].
    fn step_setreg(&mut self, rid: usize, op2: SetOperand, deref: bool) -> (r: Result<
        (),
        MikuError,
    >)
        requires
            old(self).inv(),
        ensures
            final(self).inv(),
            match spec_setreg_step(old(self)@, rid, op2, deref) {
                Ok(s2) => r == Ok::<(), MikuError>(()) && final(self)@ == s2,
                Err(e) => r == Err::<(), MikuError>(e) && final(self)@ == old(self)@,
            },
    {
        let v0 = match op2 {
            SetOperand::Value(c) => c,
            SetOperand::Register(r2) => match self.read_register(r2) {
                Ok(v) => v,
                Err(e) => {
                    return Err(e);
                },
            },
        };
        let v = if deref {
            match self.deref_ptr(v0) {
                Ok(v) => v,
                Err(e) => {
                    return Err(e);
                },
            }
        } else {
            v0
        };
        self.set_register(rid, v)
    }

    /// Pushes the return address and the caller's frame base, opens the new
    /// frame above them, and jumps to the target; see [`spec_call_step`].
    fn step_call(&mut self, target: usize) -> (r: Result<(), MikuError>)
        requires
            old(self).inv(),
        ensures
            final(self).inv(),
            match spec_call_step(old(self)@, target) {
                Ok(s2) => r == Ok::<(), MikuError>(()) && final(self)@ == s2,
                Err(e) => r == Err::<(), MikuError>(e) && final(self)@ == old(self)@,
            },
    {
        if target >= self.program.len() {
            return Err(MikuError::JumpOutOfBounds(target));
        }
        if self.stack_end - self.stack_top < 2 {
            return Err(MikuError::StackOverflow);
        }
        self.memory[self.stack_top] = MikuType::U64(self.pc as u64);
        self.memory[self.stack_top + 1] = MikuType::U64(self.stack_base as u64);
        self.stack_top = self.stack_top + 2;
        self.stack_base = self.stack_top;
        self.pc = target;
        Ok(())
    }

    /// Tears the current frame down and restores the caller's base and
    /// return address from the two bookkeeping cells; see [`spec_ret_step`].
    fn step_ret(&mut self) -> (r: Result<(), MikuError>)
        requires
            old(self).inv(),
        ensures
            final(self).inv(),
            match spec_ret_step(old(self)@) {
                Ok(s2) => r == Ok::<(), MikuError>(()) && final(self)@ == s2,
                Err(e) => r == Err::<(), MikuError>(e) && final(self)@ == old(self)@,
            },
    {
        if self.stack_base < 2 {
            return Err(MikuError::StackUnderflow);
        }
        let saved_base = self.memory[self.stack_base - 1];
        let saved_ret = self.memory[self.stack_base - 2];
        let b = match saved_base {
            MikuType::U64(b) => b,
            _ => {
                return Err(MikuError::InvalidPointerType(saved_base));
            },
        };
        let r = match saved_ret {
            MikuType::U64(r) => r,
            _ => {
                return Err(MikuError::InvalidPointerType(saved_ret));
            },
        };
        if b > (self.stack_base - 2) as u64 {
            return Err(MikuError::SegmentationFault);
        }
        if r > self.program.len() as u64 {
            return Err(
                MikuError::JumpOutOfBounds(
                    if r > usize::MAX as u64 {
                        usize::MAX
                    } else {
                        r as usize
                    },
                ),
            );
        }
        self.stack_top = self.stack_base - 2;
        self.stack_base = b as usize;
        self.pc = r as usize;
        Ok(())
    }

    /// Captures the frame's top cell, tears the frame down as a plain
    /// return does, and pushes the captured cell onto the caller's frame;
    /// see [`spec_retv_step`].
    fn step_retv(&mut self) -> (r: Result<(), MikuError>)
        requires
            old(self).inv(),
        ensures
            final(self).inv(),
            match spec_retv_step(old(self)@) {
                Ok(s2) => r == Ok::<(), MikuError>(()) && final(self)@ == s2,
                Err(e) => r == Err::<(), MikuError>(e) && final(self)@ == old(self)@,
            },
    {
        if self.stack_top == self.stack_base {
            return Err(MikuError::StackUnderflow);
        }
        let v = self.memory[self.stack_top - 1];
        match self.step_ret() {
            Ok(()) => {
                self.memory[self.stack_top] = v;
                self.stack_top = self.stack_top + 1;
                Ok(())
            },
            Err(e) => Err(e),
        }
    }

    /// Executes the next instruction: the counter is advanced first, then
    /// the instruction's effect is applied transactionally. The outcome is
    /// exactly the specification transition [`spec_step`]; on an error the
    /// machine has only advanced the counter.
    pub fn step(&mut self) -> (r: Result<(), MikuError>)
        requires
            old(self).inv(),
            old(self)@.pc < old(self)@.program.len(),
        ensures
            final(self).inv(),
            match r {
                Ok(()) => spec_step(old(self)@, old(self)@.program[old(self)@.pc]) == Ok::<
                    VmState,
                    MikuError,
                >(final(self)@),
                Err(e) => spec_step(old(self)@, old(self)@.program[old(self)@.pc]) == Err::<
                    VmState,
                    MikuError,
                >(e) && final(self)@ == spec_advance_pc(old(self)@),
            },
    {
        let inst = self.program[self.pc];
        self.inc_pc();
        match inst {
            Inst::Push(c) => self.stack_push(c),
            Inst::Pop => self.stack_pop(),
            Inst::Def(c, a) => self.define_data(c, a),
            Inst::SetReg(rid, op2, deref) => self.step_setreg(rid, op2, deref),
            Inst::DupT(x) => {
                if x >= self.stack_top - self.stack_base {
                    return Err(MikuError::StackIndexOutOfBounds(x));
                }
                let v = self.memory[self.stack_top - 1 - x];
                self.stack_push(v)
            },
            Inst::DupB(x) => {
                if x >= self.stack_top - self.stack_base {
                    return Err(MikuError::StackIndexOutOfBounds(x));
                }
                let v = self.memory[self.stack_base + x];
                self.stack_push(v)
            },
            Inst::Swap => self.step_swap(),
            Inst::Plus => self.step_binop(CellOp::Add),
            Inst::Minus => self.step_binop(CellOp::Subtract),
            Inst::Mult => self.step_binop(CellOp::Multiply),
            Inst::Div => self.step_binop(CellOp::Divide),
            Inst::Eq => self.step_binop(CellOp::Equals),
            Inst::Jmp(t) => {
                if t >= self.program.len() {
                    return Err(MikuError::JumpOutOfBounds(t));
                }
                self.pc = t;
                Ok(())
            },
            Inst::JmpZ(t) => self.step_branch(t, true),
            Inst::JmpNZ(t) => self.step_branch(t, false),
            Inst::Call(t) => self.step_call(t),
            Inst::Ret => self.step_ret(),
            Inst::RetV => self.step_retv(),
        }
    }

    /// Runs until the program terminates, the first error aborts the run,
    /// or the instruction-count budget is exhausted. On success the counter
    /// stands one past the last instruction and the final state is reached
    /// from the initial one by the specification transition alone; on an
    /// error the final state is the faulting state with the counter one
    /// past the faulting instruction.
    pub fn run_program(&mut self) -> (r: Result<(), MikuError>)
        requires
            old(self).inv(),
        ensures
            final(self).inv(),
            final(self)@.program == old(self)@.program,
            match r {
                Ok(()) => final(self)@.pc == final(self)@.program.len() && (exists|n: nat|
                    #[trigger] spec_reaches(old(self)@, final(self)@, n)),
                Err(e) => (e == MikuError::ExecutionLimitExceeded && final(self)@.pc
                    < final(self)@.program.len() && spec_reaches(
                    old(self)@,
                    final(self)@,
                    old(self).spec_step_budget() as nat,
                )) || (exists|s_pre: VmState, n: nat|
                    #[trigger] spec_reaches(old(self)@, s_pre, n) && s_pre.pc
                        < s_pre.program.len() && spec_step(s_pre, s_pre.program[s_pre.pc])
                        == Err::<VmState, MikuError>(e) && final(self)@ == spec_advance_pc(
                        s_pre,
                    )),
            },
    {
        let ghost s0 = self@;
        let mut steps_left: usize = self.step_budget;
        let ghost mut nsteps: nat = 0nat;
        while self.pc != self.program.len()
            invariant
                s0 == old(self)@,
                self.inv(),
                self@.program == s0.program,
                spec_reaches(s0, self@, nsteps),
                nsteps + steps_left == old(self).spec_step_budget(),
            decreases steps_left,
        {
            if steps_left == 0 {
                return Err(MikuError::ExecutionLimitExceeded);
            }
            steps_left = steps_left - 1;
            let ghost pre = self@;
            let res = self.step();
            match res {
                Ok(()) => {
                    proof {
                        lemma_step_wf(pre, pre.program[pre.pc]);
                        assert(spec_reaches(s0, pre, ((nsteps + 1) - 1) as nat) && pre.pc
                            < pre.program.len() && spec_step(pre, pre.program[pre.pc]) == Ok::<
                            VmState,
                            MikuError,
                        >(self@));
                        assert(spec_reaches(s0, self@, nsteps + 1));
                        nsteps = nsteps + 1nat;
                    }
                },
                Err(e) => {
                    return Err(e);
                },
            }
        }
        Ok(())
    }
}

} // verus!
