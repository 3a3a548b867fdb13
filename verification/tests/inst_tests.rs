use miku_vm::inst::{Inst, SetOperand};
use miku_vm::miku::MikuVM;
use miku_vm::types::MikuType;
use miku_vm::DATA_START;

#[test]
fn miku_inst_tests_push_test() {
    // Functionality test
    let mut vm = MikuVM::new();
    let i1 = Inst::Push(MikuType::U8(69));
    let i2 = Inst::Push(MikuType::I64(-728463721));
    let i3 = Inst::Push(MikuType::F32(8947.2932f32.to_bits()));
    vm.push_inst(i1);
    vm.push_inst(i2);
    vm.push_inst(i3);
    let _ = vm.run_program();
    assert_eq!(
        vec![
            MikuType::U8(69),
            MikuType::I64(-728463721),
            MikuType::F32(8947.2932f32.to_bits())
        ],
        vm.stack()[0..3].to_vec()
    );
    assert_eq!(3, vm.pc());
    assert_eq!(3, vm.stack_top());
    assert_eq!(0, vm.stack_base());

    // Encoding test
    let encoded_i1 = i1.encode();
    assert_eq!(vec![0x00, 0x00, 0x45], encoded_i1);
    let encoded_i2 = i2.encode();
    assert_eq!(vec![0x00, 0x07, 0x97, 0x86, 0x94, 0xD4, 0xFF, 0xFF, 0xFF, 0xFF], encoded_i2);

    // Decoding test
    assert_eq!(
        Inst::Push(MikuType::U8(69)),
        Inst::decode(&vec![0x00, 0x00, 0x45]).unwrap()
    );
    assert_eq!(
        Inst::Push(MikuType::I64(-728463721)),
        Inst::decode(&vec![0x00, 0x07, 0x97, 0x86, 0x94, 0xD4, 0xFF, 0xFF, 0xFF, 0xFF]).unwrap()
    );
}

#[test]
fn miku_inst_tests_pop_test() {
    // Functionality test 1.
    let mut vm = MikuVM::new();
    vm.push_inst(Inst::Push(MikuType::U8(69)));
    vm.push_inst(Inst::Push(MikuType::I64(-728463721)));
    vm.push_inst(Inst::Push(MikuType::F32(8947.2932f32.to_bits())));
    let i4 = Inst::Pop;
    vm.push_inst(i4);
    let _ = vm.run_program();
    assert_eq!(
        vec![
            MikuType::U8(69),
            MikuType::I64(-728463721),
            MikuType::F32(8947.2932f32.to_bits())
        ],
        vm.stack()[0..3].to_vec()
    );
    assert_eq!(4, vm.pc());
    assert_eq!(2, vm.stack_top());
    assert_eq!(0, vm.stack_base());

    // Functionality test 2.
    let mut vm = MikuVM::new();
    vm.push_inst(Inst::Push(MikuType::U8(69)));
    vm.push_inst(Inst::Push(MikuType::I64(-728463721)));
    vm.push_inst(Inst::Push(MikuType::F32(8947.2932f32.to_bits())));
    vm.push_inst(Inst::Pop);
    vm.push_inst(Inst::Push(MikuType::I16(420)));
    let _ = vm.run_program();
    assert_eq!(
        vec![MikuType::U8(69), MikuType::I64(-728463721), MikuType::I16(420)],
        vm.stack()[0..3].to_vec()
    );
    assert_eq!(5, vm.pc());
    assert_eq!(3, vm.stack_top());
    assert_eq!(0, vm.stack_base());

    // Stack underflow test
    let mut vm = MikuVM::new();
    vm.push_inst(Inst::Pop);
    let status = vm.run_program();
    assert!(status.is_err());

    // Encoding test
    assert_eq!(vec![0x01], i4.encode());

    // Decoding test
    assert_eq!(Inst::Pop, Inst::decode(&vec![0x01]).unwrap());
}

#[test]
fn def_test() {
    // Functionality test
    let mut vm = MikuVM::new();
    vm.push_inst(Inst::Def(MikuType::U32(420), DATA_START));
    vm.push_inst(Inst::Def(MikuType::U8(69), DATA_START + 1));
    let status = vm.run_program();
    assert!(status.is_ok());
    assert_eq!(
        vec![MikuType::U32(420), MikuType::U8(69)],
        vm.data_mem()[0..2].to_vec()
    );

    // Encoding test
    assert_eq!(
        vec![0x02, 0x00, 0x45, 0x01, 0x00, 0x00, 0x00, 0x00, 0x00, 0x00, 0x00],
        Inst::Def(MikuType::U8(69), 1).encode()
    );

    // Decoding test
    assert_eq!(
        Inst::Def(MikuType::U8(69), 1),
        Inst::decode(&vec![0x02, 0x00, 0x45, 0x01, 0x00, 0x00, 0x00, 0x00, 0x00, 0x00, 0x00])
            .unwrap()
    );
}

#[test]
fn set_test() {
    // Functionality test
    let mut vm = MikuVM::new();
    vm.push_inst(Inst::SetReg(0, SetOperand::Value(MikuType::U8(69)), false));
    let _ = vm.run_program();
    assert_eq!(MikuType::U8(69), vm.read_register(0).unwrap());
}
