use miku_vm::inst::Inst;
use miku_vm::miku::MikuVM;
use miku_vm::types::MikuType;

#[test]
fn tests_push_test() {
    let mut vm = MikuVM::new();
    vm.push_inst(Inst::Push(MikuType::U8(255)));
    vm.push_inst(Inst::Push(MikuType::U16(65535)));
    vm.push_inst(Inst::Push(MikuType::U32(4294967295)));
    vm.push_inst(Inst::Push(MikuType::U64(18446744073709551615)));
    let _ = vm.run_program();
    assert_eq!(
        vec![
            MikuType::U8(255),
            MikuType::U16(65535),
            MikuType::U32(4294967295),
            MikuType::U64(18446744073709551615)
        ],
        vm.stack()[0..4].to_vec()
    );
}

#[test]
fn push_test_2() {
    let mut vm = MikuVM::new();
    vm.push_inst(Inst::Push(MikuType::U8(255)));
    vm.push_inst(Inst::Push(MikuType::U16(65535)));
    vm.push_inst(Inst::Push(MikuType::U32(4294967295)));
    vm.push_inst(Inst::Push(MikuType::U64(18446744073709551615)));
    vm.push_inst(Inst::Pop);
    vm.push_inst(Inst::Push(MikuType::U64(69)));
    let _ = vm.run_program();
    assert_eq!(
        vec![
            MikuType::U8(255),
            MikuType::U16(65535),
            MikuType::U32(4294967295),
            MikuType::U64(69)
        ],
        vm.stack()[0..4].to_vec()
    );
}

#[test]
fn tests_pop_test() {
    let mut vm = MikuVM::new();
    vm.push_inst(Inst::Push(MikuType::U8(255)));
    vm.push_inst(Inst::Push(MikuType::U16(65535)));
    vm.push_inst(Inst::Push(MikuType::U32(4294967295)));
    vm.push_inst(Inst::Push(MikuType::U64(18446744073709551615)));
    vm.push_inst(Inst::Pop);
    vm.push_inst(Inst::Pop);
    let _ = vm.run_program();
    assert_eq!(
        vec![MikuType::U8(255), MikuType::U16(65535)],
        vm.stack()[vm.stack_base()..vm.stack_top()].to_vec()
    );
}

#[test]
fn retv_test() {
    let mut vm = MikuVM::new();
    vm.push_inst(Inst::Jmp(4));
    vm.push_inst(Inst::Push(MikuType::U8(69)));
    vm.push_inst(Inst::Push(MikuType::U16(420)));
    vm.push_inst(Inst::RetV);
    vm.push_inst(Inst::Call(1));
    let _ = vm.run_program();
    assert_eq!(
        vec![MikuType::U16(420)],
        vm.stack()[vm.stack_base()..vm.stack_top()].to_vec()
    );
}
