use miku_vm::error::MikuError;
use miku_vm::inst::Inst;
use miku_vm::miku::MikuVM;
use miku_vm::types::MikuType;

#[test]
fn plus_wraps_at_boundary() {
    // 200 + 55 fills the u8 range exactly.
    let mut vm = MikuVM::new();
    vm.push_inst(Inst::Push(MikuType::U8(200)));
    vm.push_inst(Inst::Push(MikuType::U8(55)));
    vm.push_inst(Inst::Plus);
    assert!(vm.run_program().is_ok());
    assert_eq!(vec![MikuType::U8(255)], vm.stack()[vm.stack_base()..vm.stack_top()].to_vec());

    // One past the boundary wraps.
    let mut vm = MikuVM::new();
    vm.push_inst(Inst::Push(MikuType::U8(200)));
    vm.push_inst(Inst::Push(MikuType::U8(56)));
    vm.push_inst(Inst::Plus);
    assert!(vm.run_program().is_ok());
    assert_eq!(vec![MikuType::U8(0)], vm.stack()[vm.stack_base()..vm.stack_top()].to_vec());
}

#[test]
fn div_by_zero_aborts_run() {
    let mut vm = MikuVM::new();
    vm.push_inst(Inst::Push(MikuType::U8(5)));
    vm.push_inst(Inst::Push(MikuType::U8(0)));
    vm.push_inst(Inst::Div);
    assert_eq!(Err(MikuError::DivisionByZeroError), vm.run_program());
}

#[test]
fn pop_on_empty_machine_underflows() {
    let mut vm = MikuVM::new();
    vm.push_inst(Inst::Pop);
    assert_eq!(Err(MikuError::StackUnderflow), vm.run_program());
}

#[test]
fn dup_index_out_of_bounds() {
    let mut vm = MikuVM::new();
    vm.push_inst(Inst::Push(MikuType::U8(1)));
    vm.push_inst(Inst::DupT(5));
    assert_eq!(Err(MikuError::StackIndexOutOfBounds(5)), vm.run_program());
}

#[test]
fn retv_leaves_exactly_the_returned_value() {
    let mut vm = MikuVM::new();
    vm.push_inst(Inst::Jmp(4));
    vm.push_inst(Inst::Push(MikuType::U8(69)));
    vm.push_inst(Inst::Push(MikuType::U16(420)));
    vm.push_inst(Inst::RetV);
    vm.push_inst(Inst::Call(1));
    assert!(vm.run_program().is_ok());
    assert_eq!(vec![MikuType::U16(420)], vm.stack()[vm.stack_base()..vm.stack_top()].to_vec());
}

#[test]
fn call_and_ret_restore_the_frame() {
    // A caller-local value, a call to a body that does some work and
    // returns plainly: the local is the whole frame again afterwards, and
    // the counter ran past the end.
    let mut vm = MikuVM::new();
    vm.push_inst(Inst::Push(MikuType::U32(7)));
    vm.push_inst(Inst::Jmp(6));
    vm.push_inst(Inst::Push(MikuType::U8(1)));
    vm.push_inst(Inst::Push(MikuType::U8(2)));
    vm.push_inst(Inst::Plus);
    vm.push_inst(Inst::Ret);
    vm.push_inst(Inst::Call(2));
    assert!(vm.run_program().is_ok());
    assert_eq!(0, vm.stack_base());
    assert_eq!(1, vm.stack_top());
    assert_eq!(vec![MikuType::U32(7)], vm.stack()[0..1].to_vec());
    assert_eq!(7, vm.pc());
}

#[test]
fn push_pop_sequence_restores_stack_top() {
    let mut vm = MikuVM::new();
    let before = vm.stack_top();
    for i in 0..10u8 {
        assert!(vm.stack_push(MikuType::U8(i)).is_ok());
    }
    for _ in 0..10 {
        assert!(vm.stack_pop().is_ok());
    }
    assert_eq!(before, vm.stack_top());
    // One pop too many underflows (the frame is empty again).
    assert_eq!(Err(MikuError::StackUnderflow), vm.stack_pop());
}

#[test]
fn push_past_capacity_overflows() {
    let mut vm = MikuVM::with_layout(2, 2, 2);
    assert!(vm.stack_push(MikuType::U8(1)).is_ok());
    assert!(vm.stack_push(MikuType::U8(2)).is_ok());
    assert_eq!(Err(MikuError::StackOverflow), vm.stack_push(MikuType::U8(3)));
}

#[test]
fn eq_pushes_inverted_boolean() {
    // Equal operands push U8(0).
    let mut vm = MikuVM::new();
    vm.push_inst(Inst::Push(MikuType::U16(7)));
    vm.push_inst(Inst::Push(MikuType::U16(7)));
    vm.push_inst(Inst::Eq);
    assert!(vm.run_program().is_ok());
    assert_eq!(vec![MikuType::U8(0)], vm.stack()[vm.stack_base()..vm.stack_top()].to_vec());

    // Unequal operands push U8(1).
    let mut vm = MikuVM::new();
    vm.push_inst(Inst::Push(MikuType::U16(7)));
    vm.push_inst(Inst::Push(MikuType::U16(8)));
    vm.push_inst(Inst::Eq);
    assert!(vm.run_program().is_ok());
    assert_eq!(vec![MikuType::U8(1)], vm.stack()[vm.stack_base()..vm.stack_top()].to_vec());
}

#[test]
fn minus_and_div_use_the_deeper_cell_as_left_operand() {
    let mut vm = MikuVM::new();
    vm.push_inst(Inst::Push(MikuType::U8(10)));
    vm.push_inst(Inst::Push(MikuType::U8(3)));
    vm.push_inst(Inst::Minus);
    assert!(vm.run_program().is_ok());
    assert_eq!(vec![MikuType::U8(7)], vm.stack()[vm.stack_base()..vm.stack_top()].to_vec());

    let mut vm = MikuVM::new();
    vm.push_inst(Inst::Push(MikuType::U8(10)));
    vm.push_inst(Inst::Push(MikuType::U8(3)));
    vm.push_inst(Inst::Div);
    assert!(vm.run_program().is_ok());
    assert_eq!(vec![MikuType::U8(3)], vm.stack()[vm.stack_base()..vm.stack_top()].to_vec());
}

#[test]
fn conditional_jumps_follow_zero_polarity() {
    // JmpZ takes the branch on a zero cell: the push at index 2 is skipped.
    let mut vm = MikuVM::new();
    vm.push_inst(Inst::Push(MikuType::U8(0)));
    vm.push_inst(Inst::JmpZ(3));
    vm.push_inst(Inst::Push(MikuType::U8(99)));
    vm.push_inst(Inst::Push(MikuType::U8(1)));
    assert!(vm.run_program().is_ok());
    assert_eq!(vec![MikuType::U8(1)], vm.stack()[vm.stack_base()..vm.stack_top()].to_vec());

    // JmpNZ does not take the branch on a zero cell.
    let mut vm = MikuVM::new();
    vm.push_inst(Inst::Push(MikuType::U8(0)));
    vm.push_inst(Inst::JmpNZ(3));
    vm.push_inst(Inst::Push(MikuType::U8(99)));
    vm.push_inst(Inst::Push(MikuType::U8(1)));
    assert!(vm.run_program().is_ok());
    assert_eq!(
        vec![MikuType::U8(99), MikuType::U8(1)],
        vm.stack()[vm.stack_base()..vm.stack_top()].to_vec()
    );
}

#[test]
fn dup_and_swap_rearrange_the_frame() {
    let mut vm = MikuVM::new();
    vm.push_inst(Inst::Push(MikuType::U8(1)));
    vm.push_inst(Inst::Push(MikuType::U8(2)));
    vm.push_inst(Inst::DupT(1));
    assert!(vm.run_program().is_ok());
    assert_eq!(
        vec![MikuType::U8(1), MikuType::U8(2), MikuType::U8(1)],
        vm.stack()[vm.stack_base()..vm.stack_top()].to_vec()
    );

    let mut vm = MikuVM::new();
    vm.push_inst(Inst::Push(MikuType::U8(1)));
    vm.push_inst(Inst::Push(MikuType::U8(2)));
    vm.push_inst(Inst::DupB(1));
    assert!(vm.run_program().is_ok());
    assert_eq!(
        vec![MikuType::U8(1), MikuType::U8(2), MikuType::U8(2)],
        vm.stack()[vm.stack_base()..vm.stack_top()].to_vec()
    );

    let mut vm = MikuVM::new();
    vm.push_inst(Inst::Push(MikuType::U8(1)));
    vm.push_inst(Inst::Push(MikuType::U8(2)));
    vm.push_inst(Inst::Swap);
    assert!(vm.run_program().is_ok());
    assert_eq!(
        vec![MikuType::U8(2), MikuType::U8(1)],
        vm.stack()[vm.stack_base()..vm.stack_top()].to_vec()
    );
}

#[test]
fn jump_out_of_bounds_is_reported() {
    let mut vm = MikuVM::new();
    vm.push_inst(Inst::Jmp(99));
    assert_eq!(Err(MikuError::JumpOutOfBounds(99)), vm.run_program());

    let mut vm = MikuVM::new();
    vm.push_inst(Inst::Call(99));
    assert_eq!(Err(MikuError::JumpOutOfBounds(99)), vm.run_program());
}

#[test]
fn ret_without_a_frame_underflows() {
    // A Ret with no call behind it has no saved bookkeeping cells to read.
    let mut vm = MikuVM::new();
    vm.push_inst(Inst::Ret);
    assert_eq!(Err(MikuError::StackUnderflow), vm.run_program());
}

#[test]
fn non_pointer_cells_cannot_be_dereferenced() {
    let vm = MikuVM::new();
    assert_eq!(
        Err(MikuError::InvalidPointerType(MikuType::U32(0))),
        vm.deref_ptr(MikuType::U32(0))
    );
}

#[test]
fn execution_budget_stops_infinite_loops() {
    let mut vm = MikuVM::new();
    vm.push_inst(Inst::Jmp(0));
    vm.set_step_budget(1000);
    assert_eq!(Err(MikuError::ExecutionLimitExceeded), vm.run_program());
}
