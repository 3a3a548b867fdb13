use miku_vm::error::MikuError;
use miku_vm::DATA_START;
use miku_vm::inst::{Inst, SetOperand};
use miku_vm::miku::MikuVM;
use miku_vm::stack::StackEntry;
use miku_vm::tools::{convert_bytes, create_program, encode_program, split_bytes_by_size};
use miku_vm::types::MikuType;

fn roundtrip_cell(c: MikuType) {
    let bytes = c.to_bytes();
    assert_eq!(Ok(c), MikuType::from_bytes(&bytes));
}

#[test]
fn cell_round_trip_every_tag_and_boundary() {
    roundtrip_cell(MikuType::U8(0));
    roundtrip_cell(MikuType::U8(u8::MAX));
    roundtrip_cell(MikuType::U16(0));
    roundtrip_cell(MikuType::U16(u16::MAX));
    roundtrip_cell(MikuType::U32(0));
    roundtrip_cell(MikuType::U32(u32::MAX));
    roundtrip_cell(MikuType::U64(0));
    roundtrip_cell(MikuType::U64(u64::MAX));
    roundtrip_cell(MikuType::I8(i8::MIN));
    roundtrip_cell(MikuType::I8(0));
    roundtrip_cell(MikuType::I8(i8::MAX));
    roundtrip_cell(MikuType::I16(i16::MIN));
    roundtrip_cell(MikuType::I16(i16::MAX));
    roundtrip_cell(MikuType::I32(i32::MIN));
    roundtrip_cell(MikuType::I32(i32::MAX));
    roundtrip_cell(MikuType::I64(i64::MIN));
    roundtrip_cell(MikuType::I64(i64::MAX));
    roundtrip_cell(MikuType::NULL);
}

#[test]
fn cell_round_trip_float_edge_values() {
    // NaN and infinity round-trip bit-for-bit, because the cell carries
    // the bit pattern itself.
    roundtrip_cell(MikuType::F32(f32::NAN.to_bits()));
    roundtrip_cell(MikuType::F32(f32::INFINITY.to_bits()));
    roundtrip_cell(MikuType::F32(f32::NEG_INFINITY.to_bits()));
    roundtrip_cell(MikuType::F32(0.0f32.to_bits()));
    roundtrip_cell(MikuType::F32((-0.0f32).to_bits()));
    roundtrip_cell(MikuType::F64(f64::NAN.to_bits()));
    roundtrip_cell(MikuType::F64(f64::INFINITY.to_bits()));
    roundtrip_cell(MikuType::F64(f64::NEG_INFINITY.to_bits()));
    roundtrip_cell(MikuType::F64(0.0f64.to_bits()));
    roundtrip_cell(MikuType::F64((-0.0f64).to_bits()));
}

#[test]
fn nan_is_unequal_to_itself_at_the_machine_level() {
    let nan = MikuType::F32(f32::NAN.to_bits());
    assert_eq!(Ok(false), MikuType::equals(nan, nan));
    // Positive and negative zero compare equal despite distinct bits.
    let pz = MikuType::F32(0.0f32.to_bits());
    let nz = MikuType::F32((-0.0f32).to_bits());
    assert_eq!(Ok(true), MikuType::equals(pz, nz));
}

#[test]
fn cell_decode_rejects_malformed_bytes() {
    assert_eq!(Err(MikuError::UnknownTypeError(0xFF)), MikuType::from_bytes(&[0xFF, 0x01]));
    assert_eq!(Err(MikuError::BytesConversionError), MikuType::from_bytes(&[]));
    assert_eq!(Err(MikuError::BytesConversionError), MikuType::from_bytes(&[0x01, 0x45]));
    assert_eq!(Err(MikuError::BytesConversionError), MikuType::from_bytes(&[0x00, 0x45, 0x45]));
}

fn roundtrip_inst(i: Inst) {
    let bytes = i.encode();
    assert_eq!(Ok(i), Inst::decode(&bytes));
}

#[test]
fn inst_round_trip_every_variant() {
    roundtrip_inst(Inst::Push(MikuType::U16(420)));
    roundtrip_inst(Inst::Push(MikuType::NULL));
    roundtrip_inst(Inst::Pop);
    roundtrip_inst(Inst::Def(MikuType::I32(-7), 311));
    roundtrip_inst(Inst::SetReg(3, SetOperand::Value(MikuType::F64(1.5f64.to_bits())), true));
    roundtrip_inst(Inst::SetReg(1, SetOperand::Register(4), false));
    roundtrip_inst(Inst::DupT(2));
    roundtrip_inst(Inst::DupB(0));
    roundtrip_inst(Inst::Swap);
    roundtrip_inst(Inst::Plus);
    roundtrip_inst(Inst::Minus);
    roundtrip_inst(Inst::Mult);
    roundtrip_inst(Inst::Div);
    roundtrip_inst(Inst::Eq);
    roundtrip_inst(Inst::Jmp(4));
    roundtrip_inst(Inst::JmpZ(5));
    roundtrip_inst(Inst::JmpNZ(6));
    roundtrip_inst(Inst::Call(1));
    roundtrip_inst(Inst::Ret);
    roundtrip_inst(Inst::RetV);
}

#[test]
fn inst_decode_rejects_malformed_bytes() {
    assert_eq!(Err(MikuError::UnknownTypeError(0x7F)), Inst::decode(&[0x7F]));
    assert_eq!(Err(MikuError::BytesConversionError), Inst::decode(&[]));
    // Pop takes no operands.
    assert_eq!(Err(MikuError::BytesConversionError), Inst::decode(&[0x01, 0x00]));
    // Jmp wants exactly eight operand bytes.
    assert_eq!(Err(MikuError::BytesConversionError), Inst::decode(&[0x0C, 0x01]));
}

#[test]
fn program_stream_round_trip() {
    let program = vec![
        Inst::Push(MikuType::U8(200)),
        Inst::Push(MikuType::U8(55)),
        Inst::Plus,
        Inst::Def(MikuType::U32(9), 300),
        Inst::Jmp(0),
    ];
    let stream = encode_program(&program);
    let chunks = split_bytes_by_size(&stream).unwrap();
    assert_eq!(program.len(), chunks.len());
    let decoded = create_program(&chunks).unwrap();
    assert_eq!(program, decoded);
}

#[test]
fn split_rejects_truncated_streams() {
    // One record that promises three bytes but holds two.
    assert_eq!(
        Err(MikuError::BytesConversionError),
        split_bytes_by_size(&[0x03, 0x01, 0x02])
    );
    // The empty stream is the empty program.
    assert_eq!(0, split_bytes_by_size(&[]).unwrap().len());
}

#[test]
fn convert_bytes_checks_the_length() {
    assert_eq!(vec![1u8, 2, 3], convert_bytes(&[1u8, 2, 3], 3).unwrap());
    assert_eq!(Err(MikuError::BytesConversionError), convert_bytes(&[1u8, 2, 3], 4));
}

#[test]
fn entry_round_trip_and_bytes() {
    let e = StackEntry::U32(526470706);
    assert_eq!(vec![0x02, 0x32, 0x4E, 0x61, 0x1F], e.to_bytes());
    assert_eq!(e, StackEntry::from_bytes(&e.to_bytes()));
    let e = StackEntry::U8(69);
    assert_eq!(e, StackEntry::from_bytes(&e.to_bytes()));
    let e = StackEntry::U16(65535);
    assert_eq!(e, StackEntry::from_bytes(&e.to_bytes()));
    let e = StackEntry::U64(12031311536003071336);
    assert_eq!(e, StackEntry::from_bytes(&e.to_bytes()));
}

#[test]
fn entry_arithmetic_exact_values() {
    assert_eq!(
        StackEntry::U8(255),
        StackEntry::add(StackEntry::U8(200), StackEntry::U8(55))
    );
    assert_eq!(
        StackEntry::U16(7),
        StackEntry::subtract(StackEntry::U16(10), StackEntry::U16(3))
    );
    assert_eq!(
        StackEntry::U32(300),
        StackEntry::multiply(StackEntry::U32(20), StackEntry::U32(15))
    );
    assert_eq!(
        StackEntry::U64(3),
        StackEntry::divide(StackEntry::U64(10), StackEntry::U64(3))
    );
    assert!(StackEntry::eq(StackEntry::U8(4), StackEntry::U8(4)));
    assert!(!StackEntry::eq(StackEntry::U8(4), StackEntry::U8(5)));
}

#[test]
fn from_strs_reads_type_and_value() {
    assert_eq!(MikuType::U8(200), MikuType::from_strs(&["u8", "200"]));
    assert_eq!(MikuType::U16(65535), MikuType::from_strs(&["u16", "65535"]));
    assert_eq!(MikuType::U32(4294967295), MikuType::from_strs(&["u32", "4294967295"]));
    assert_eq!(
        MikuType::U64(18446744073709551615),
        MikuType::from_strs(&["u64", "18446744073709551615"])
    );
    assert_eq!(MikuType::I8(-128), MikuType::from_strs(&["i8", "-128"]));
    assert_eq!(MikuType::I16(-420), MikuType::from_strs(&["i16", "-420"]));
    assert_eq!(MikuType::I32(526470706), MikuType::from_strs(&["i32", "526470706"]));
    assert_eq!(
        MikuType::I64(-9223372036854775808),
        MikuType::from_strs(&["i64", "-9223372036854775808"])
    );

    assert_eq!(StackEntry::U8(69), StackEntry::from_strs(&["u8", "69"]));
    assert_eq!(StackEntry::U64(420), StackEntry::from_strs(&["u64", "420"]));
}

#[test]
fn type_mismatch_is_always_reported() {
    // A sample of differently tagged pairs across the tag set: every
    // operation refuses them, never coerces.
    let pairs = [
        (MikuType::U8(1), MikuType::U16(1)),
        (MikuType::U32(1), MikuType::U64(1)),
        (MikuType::I8(1), MikuType::I16(1)),
        (MikuType::I32(1), MikuType::I64(1)),
        (MikuType::F32(1.0f32.to_bits()), MikuType::F64(1.0f64.to_bits())),
        (MikuType::U8(1), MikuType::NULL),
        (MikuType::U64(1), MikuType::I64(1)),
        (MikuType::F32(1.0f32.to_bits()), MikuType::U32(1)),
    ];
    for (a, b) in pairs {
        assert!(MikuType::add(a, b).is_err());
        assert!(MikuType::subtract(a, b).is_err());
        assert!(MikuType::multiply(a, b).is_err());
        assert!(MikuType::divide(a, b).is_err());
        assert!(MikuType::equals(a, b).is_err());
    }
}

#[test]
fn division_by_every_tags_zero_fails() {
    let zeros = [
        MikuType::U8(0),
        MikuType::U16(0),
        MikuType::U32(0),
        MikuType::U64(0),
        MikuType::I8(0),
        MikuType::I16(0),
        MikuType::I32(0),
        MikuType::I64(0),
        MikuType::F32(0.0f32.to_bits()),
        MikuType::F32((-0.0f32).to_bits()),
        MikuType::F64(0.0f64.to_bits()),
        MikuType::F64((-0.0f64).to_bits()),
    ];
    for z in zeros {
        // The zero test comes before tag matching, so even a mismatched
        // dividend reports division by zero.
        assert_eq!(Err(MikuError::DivisionByZeroError), MikuType::divide(MikuType::U8(5), z));
        assert_eq!(Err(MikuError::DivisionByZeroError), MikuType::divide(z, z));
    }
}

#[test]
fn signed_division_truncates_and_wraps() {
    assert_eq!(
        MikuType::I8(-2),
        MikuType::divide(MikuType::I8(-7), MikuType::I8(3)).unwrap()
    );
    assert_eq!(
        MikuType::I8(-2),
        MikuType::divide(MikuType::I8(7), MikuType::I8(-3)).unwrap()
    );
    assert_eq!(
        MikuType::I8(2),
        MikuType::divide(MikuType::I8(-7), MikuType::I8(-3)).unwrap()
    );
    // The one overflowing pair wraps back to the minimum.
    assert_eq!(
        MikuType::I8(i8::MIN),
        MikuType::divide(MikuType::I8(i8::MIN), MikuType::I8(-1)).unwrap()
    );
}

#[test]
fn used_data_space_is_reported() {
    let mut vm = MikuVM::new();
    assert!(vm.define_data(MikuType::U8(1), DATA_START).is_ok());
    assert_eq!(
        Err(MikuError::UsedDataSpace),
        vm.define_data(MikuType::U8(2), DATA_START)
    );
    assert_eq!(
        Err(MikuError::SegmentationFault),
        vm.define_data(MikuType::U8(2), 2048)
    );
}

#[test]
fn float_arithmetic_through_the_machine() {
    // Each of the eight floating-point operations through the engine, with
    // exact IEEE results.
    let cases32 = [
        (Inst::Plus, 1.5f32, 2.25f32, 3.75f32),
        (Inst::Minus, 5.5f32, 4.5f32, 1.0f32),
        (Inst::Mult, 3.0f32, 0.5f32, 1.5f32),
        (Inst::Div, 10.0f32, 4.0f32, 2.5f32),
    ];
    for (op, x, y, want) in cases32 {
        let mut vm = MikuVM::new();
        vm.push_inst(Inst::Push(MikuType::F32(x.to_bits())));
        vm.push_inst(Inst::Push(MikuType::F32(y.to_bits())));
        vm.push_inst(op);
        assert!(vm.run_program().is_ok());
        assert_eq!(
            vec![MikuType::F32(want.to_bits())],
            vm.stack()[vm.stack_base()..vm.stack_top()].to_vec()
        );
    }
    let cases64 = [
        (Inst::Plus, 1.5f64, 2.25f64, 3.75f64),
        (Inst::Minus, 5.5f64, 4.5f64, 1.0f64),
        (Inst::Mult, 3.0f64, 0.5f64, 1.5f64),
        (Inst::Div, 10.0f64, 4.0f64, 2.5f64),
    ];
    for (op, x, y, want) in cases64 {
        let mut vm = MikuVM::new();
        vm.push_inst(Inst::Push(MikuType::F64(x.to_bits())));
        vm.push_inst(Inst::Push(MikuType::F64(y.to_bits())));
        vm.push_inst(op);
        assert!(vm.run_program().is_ok());
        assert_eq!(
            vec![MikuType::F64(want.to_bits())],
            vm.stack()[vm.stack_base()..vm.stack_top()].to_vec()
        );
    }
}

#[test]
fn register_load_through_pointer() {
    let mut vm = MikuVM::new();
    vm.push_inst(Inst::Def(MikuType::U8(42), DATA_START));
    vm.push_inst(Inst::SetReg(
        2,
        SetOperand::Value(MikuType::U64(DATA_START as u64)),
        true,
    ));
    assert!(vm.run_program().is_ok());
    assert_eq!(MikuType::U8(42), vm.read_register(2).unwrap());

    // Register-to-register copy.
    let mut vm = MikuVM::new();
    vm.push_inst(Inst::SetReg(0, SetOperand::Value(MikuType::I16(-5)), false));
    vm.push_inst(Inst::SetReg(5, SetOperand::Register(0), false));
    assert!(vm.run_program().is_ok());
    assert_eq!(MikuType::I16(-5), vm.read_register(5).unwrap());
}
