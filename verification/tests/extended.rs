use bs_filter::backend::{Backend, Extended, MAX_INSTRUCTIONS};
use bs_filter::consts::EOVERFLOW;
use bs_filter::ebpf::{
    contradiction, initialization_sequence, jump, load_u16_at, load_u32_at, load_u8_at,
    return_sequence, signed32, teotology, Comparison, Instruction, Operand, Register,
    SocketFilterBpfAttribute, SocketFilterFd,
};
use bs_filter::system::SystemError;

fn insn(code: u8, regs: u8, off: i16, imm: i32) -> Instruction {
    Instruction { code, regs, off, imm }
}

#[test]
fn instruction_packs_registers() {
    let i = Instruction::new(0xbf, Register::SocketBuffer, Register::Context, 0, 0);
    assert_eq!(i, insn(0xbf, 0x61, 0, 0));
    let j = Instruction::new(0x1d, Register::FramePointer, Register::Gen3, -2, 5);
    assert_eq!(j, insn(0x1d, 0xa9, -2, 5));
}

#[test]
fn instruction_from_code_zeroes_the_rest() {
    assert_eq!(Instruction::from_code(0x95), insn(0x95, 0, 0, 0));
}

#[test]
fn instruction_encodes_little_endian() {
    assert_eq!(
        insn(0x15, 0x61, 0x0102, 0x0a0b0c0d).encode(),
        vec![0x15, 0x61, 0x02, 0x01, 0x0d, 0x0c, 0x0b, 0x0a]
    );
    assert_eq!(
        insn(0x05, 0, -1, -2).encode(),
        vec![0x05, 0, 0xff, 0xff, 0xfe, 0xff, 0xff, 0xff]
    );
    assert_eq!(
        insn(0, 0, i16::MIN, i32::MIN).encode(),
        vec![0, 0, 0x00, 0x80, 0x00, 0x00, 0x00, 0x80]
    );
}

#[test]
fn register_numbers() {
    assert_eq!(Register::Ret.index(), 0);
    assert_eq!(Register::Context.index(), 1);
    assert_eq!(Register::Arg1.index(), 2);
    assert_eq!(Register::Arg4.index(), 5);
    assert_eq!(Register::SocketBuffer.index(), 6);
    assert_eq!(Register::Gen1.index(), 7);
    assert_eq!(Register::Gen3.index(), 9);
    assert_eq!(Register::FramePointer.index(), 10);
}

#[test]
fn signed32_keeps_the_bits() {
    assert_eq!(signed32(0), 0);
    assert_eq!(signed32(0x0806), 0x0806);
    assert_eq!(signed32(0x7fff_ffff), i32::MAX);
    assert_eq!(signed32(0x8000_0000), i32::MIN);
    assert_eq!(signed32(0xffff_ffff), -1);
    assert_eq!(signed32(0xc0a8_0001), 0xc0a8_0001u32 as i32);
}

#[test]
fn extended_comparison_from_code() {
    assert_eq!(Comparison::from(0x00), Comparison::Always);
    assert_eq!(Comparison::from(0x10), Comparison::Equal);
    assert_eq!(Comparison::from(0x50), Comparison::NotEqual);
    assert_eq!(Comparison::from(0x60), Comparison::SignedGreaterThan);
    assert_eq!(Comparison::from(0x70), Comparison::SignedGreaterEqual);
    assert_eq!(Comparison::from(0xa0), Comparison::LesserThan);
    assert_eq!(Comparison::from(0xb0), Comparison::LesserEqual);
    assert_eq!(Comparison::from(0xc0), Comparison::SignedLesserThan);
    assert_eq!(Comparison::from(0xd0), Comparison::SignedLesserEqual);
    assert_eq!(Comparison::from(0x80), Comparison::Unknown);
}

#[test]
fn extended_comparison_opcodes() {
    assert_eq!(Comparison::Equal.code(), 0x10);
    assert_eq!(Comparison::Equal.opcode_imm(), 0x15);
    assert_eq!(Comparison::Equal.opcode_reg(), 0x1d);
    assert_eq!(Comparison::SignedLesserEqual.opcode_imm(), 0xd5);
    assert_eq!(Comparison::SignedLesserEqual.opcode_reg(), 0xdd);
    assert_eq!(Comparison::Unknown.code(), 0xd1);
    assert_eq!(Comparison::Unknown.opcode_imm(), 0x05 | 0xd1);
    assert_eq!(Comparison::Unknown.opcode_reg(), 0x05 | 0xd1 | 0x08);
}

#[test]
fn operand_from_number() {
    assert_eq!(Operand::from(0x0806), Operand::RegAndImm(Register::Ret, 0x0806));
    assert_eq!(Operand::from(0xffff_ffff), Operand::RegAndImm(Register::Ret, -1));
}

#[test]
fn initialization_copies_context_to_socket_buffer() {
    assert_eq!(initialization_sequence(), vec![insn(0xbf, 0x61, 0, 0)]);
}

#[test]
fn extended_return_sequence() {
    let (seq, pass, drop) = return_sequence();
    assert_eq!(
        seq,
        vec![
            insn(0x95, 0, 0, 0),
            insn(0xb7, 0x00, 0, 0),
            insn(0x05, 0, 1, 0),
            insn(0x61, 0x06, 0, 0),
        ]
    );
    assert_eq!(pass, 0);
    assert_eq!(drop, 2);
}

#[test]
fn extended_teotology_and_contradiction() {
    assert_eq!(teotology(), vec![insn(0x95, 0, 0, 0), insn(0x61, 0x06, 0, 0)]);
    assert_eq!(contradiction(), vec![insn(0x95, 0, 0, 0), insn(0xb7, 0, 0, 0)]);
}

#[test]
fn extended_jump_is_a_pair() {
    assert_eq!(
        jump(Comparison::Equal, Operand::RegAndImm(Register::Ret, 0x0806), 0, 2),
        vec![insn(0x05, 0, 2, 0), insn(0x15, 0x00, 1, 0x0806)]
    );
    assert_eq!(
        jump(Comparison::GreaterThan, Operand::DstAndSrc(Register::Gen1, Register::Gen2), 10, 32766),
        vec![insn(0x05, 0, 32766, 0), insn(0x2d, 0x78, 11, 0)]
    );
    assert_eq!(
        jump(Comparison::NotEqual, Operand::RegAndImm(Register::Gen3, -5), 32766, 0),
        vec![insn(0x05, 0, 0, 0), insn(0x55, 0x90, 32767, -5)]
    );
}

#[test]
fn extended_loads_carry_the_offset() {
    assert_eq!(load_u8_at(23), vec![insn(0x30, 0, 0, 23)]);
    assert_eq!(load_u16_at(12), vec![insn(0x28, 0, 0, 12)]);
    assert_eq!(load_u32_at(26), vec![insn(0x20, 0, 0, 26)]);
}

#[test]
fn extended_backend_forwards() {
    assert_eq!(Extended::reach(), 32766);
    assert_eq!(Extended::initialization_sequence(), initialization_sequence());
    assert_eq!(Extended::return_sequence(), return_sequence());
    assert_eq!(Extended::teotology(), teotology());
    assert_eq!(Extended::contradiction(), contradiction());
    assert_eq!(Extended::load_u8_at(1), load_u8_at(1));
    assert_eq!(Extended::load_u16_at(2), load_u16_at(2));
    assert_eq!(Extended::load_u32_at(0xffff_ffff), load_u32_at(-1));
    assert_eq!(Extended::comparison(0x10), Comparison::Equal);
    assert_eq!(Extended::value(77), Operand::RegAndImm(Register::Ret, 77));
}

#[test]
fn load_result_not_negative_is_a_descriptor() {
    assert_eq!(SocketFilterFd::from_load_result(5), Ok(SocketFilterFd { fd: 5 }));
    assert_eq!(SocketFilterFd::from_load_result(0), Ok(SocketFilterFd { fd: 0 }));
}

#[test]
fn load_result_negative_is_the_negated_error() {
    assert_eq!(SocketFilterFd::from_load_result(-1), Err(SystemError(1)));
    assert_eq!(SocketFilterFd::from_load_result(-13), Err(SystemError(13)));
    assert_eq!(
        SocketFilterFd::from_load_result(i32::MIN + 1),
        Err(SystemError(i32::MAX))
    );
}

#[test]
fn attribute_describes_a_socket_filter() {
    let program = teotology();
    let attr = SocketFilterBpfAttribute::new(program.clone(), false);
    assert_eq!(attr.program_type, 1);
    assert_eq!(attr.instructions_count, 2);
    assert_eq!(attr.instructions, program);
    assert_eq!(attr.license, b"GPL".to_vec());
    assert_eq!(attr.log_level, 0);
    assert_eq!(attr.log_size, 0);
    assert_eq!(attr.kernel_version, 0);
    assert_eq!(attr.program_flags, 0);
    let logged = SocketFilterBpfAttribute::new(program, true);
    assert_eq!(logged.log_level, 1);
    assert_eq!(logged.log_size, 4096);
}

#[test]
fn extended_attachable_holds_the_program() {
    let attr = Extended::build_attachable(teotology()).unwrap();
    assert_eq!(attr.instructions, teotology());
    assert_eq!(attr.instructions_count, 2);
    assert_eq!(attr.log_level, 0);
}

#[test]
fn extended_attachable_refuses_a_longer_program() {
    let program = vec![insn(0x95, 0, 0, 0); MAX_INSTRUCTIONS + 1];
    assert_eq!(Extended::build_attachable(program).err(), Some(SystemError(EOVERFLOW)));
    let longest = vec![insn(0x95, 0, 0, 0); MAX_INSTRUCTIONS];
    assert_eq!(Extended::build_attachable(longest).unwrap().instructions_count, 65535);
}
