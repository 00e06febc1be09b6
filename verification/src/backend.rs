//! The two BPF flavours a predicate can be compiled for.

use vstd::prelude::*;
use std::fmt::Debug;
use std::hash::Hash;
use crate::cbpf;
use crate::consts::{BPF_PROG_TYPE_SOCKET_FILTER, EOVERFLOW};
use crate::ebpf;
use crate::sealed::Sealed;
use crate::system::SystemError;

verus! {

/// The longest program either flavour lets a socket filter have.
pub const MAX_INSTRUCTIONS: usize = 65535;

/// The building blocks a BPF flavour offers to the compiler. The flavours are the two of
/// this module: no other type can implement the trait.
///
/// Every fragment is in emission order, the reverse of execution order.
pub trait Backend: Sized + Clone + Ord + Debug + Hash + Sealed {
    /// The relation a conditional jump tests.
    type Comparison: Clone + Ord + Debug + Hash;

    /// The right-hand side of a comparison.
    type Value: Clone + Ord + Debug + Hash;

    /// One instruction of a program.
    type Instruction: Clone + Ord + Debug + Hash + Sized;

    /// What the kernel is handed to attach a program.
    type Output;

    /// The longest distance a jump of this flavour can be asked for.
    spec fn spec_reach() -> nat;

    spec fn spec_initialization_sequence() -> Seq<Self::Instruction>;

    spec fn spec_return_sequence() -> Seq<Self::Instruction>;

    /// Distance from the instruction before the exit block to its PASS entry.
    spec fn spec_pass_entry() -> nat;

    /// Distance from the instruction before the exit block to its DROP entry.
    spec fn spec_drop_entry() -> nat;

    spec fn spec_teotology() -> Seq<Self::Instruction>;

    spec fn spec_contradiction() -> Seq<Self::Instruction>;

    spec fn spec_jump(comparison: Self::Comparison, operand: Self::Value, jt: int, jf: int) -> Seq<
        Self::Instruction,
    >;

    spec fn spec_load_u8_at(offset: u32) -> Seq<Self::Instruction>;

    spec fn spec_load_u16_at(offset: u32) -> Seq<Self::Instruction>;

    spec fn spec_load_u32_at(offset: u32) -> Seq<Self::Instruction>;

    spec fn spec_comparison(code: u8) -> Self::Comparison;

    spec fn spec_value(value: u32) -> Self::Value;

    /// `output` is the program `instructions` as the kernel is handed it.
    spec fn spec_packs(instructions: Seq<Self::Instruction>, output: Self::Output) -> bool;

    /// The numbers that tell an instruction from every other.
    spec fn spec_instruction_key(i: Self::Instruction) -> Seq<int>;

    /// The numbers that tell a comparison from every other.
    spec fn spec_comparison_key(c: Self::Comparison) -> Seq<int>;

    /// The numbers that tell an operand from every other.
    spec fn spec_value_key(v: Self::Value) -> Seq<int>;

    /// Two instructions with the same key are the same.
    proof fn lemma_instruction_key(a: Self::Instruction, b: Self::Instruction)
        requires
            Self::spec_instruction_key(a) == Self::spec_instruction_key(b),
        ensures
            a == b,
    ;

    /// Two comparisons with the same key are the same.
    proof fn lemma_comparison_key(a: Self::Comparison, b: Self::Comparison)
        requires
            Self::spec_comparison_key(a) == Self::spec_comparison_key(b),
        ensures
            a == b,
    ;

    /// Two operands with the same key are the same.
    proof fn lemma_value_key(a: Self::Value, b: Self::Value)
        requires
            Self::spec_value_key(a) == Self::spec_value_key(b),
        ensures
            a == b,
    ;

    /// The longest distance [`Backend::jump`] takes.
    fn reach() -> (r: usize)
        ensures
            r == Self::spec_reach(),
    ;

    /// The fragment every program starts with.
    fn initialization_sequence() -> (r: Vec<Self::Instruction>)
        ensures
            r@ == Self::spec_initialization_sequence(),
    ;

    /// The exit block every program ends with, the distance to its PASS entry and the
    /// distance to its DROP entry.
    ///
    /// A program's return value is the length the packet is cut to, and 0 drops it. The
    /// PASS entry returns the packet's own length, the DROP entry returns 0.
    fn return_sequence() -> (r: (Vec<Self::Instruction>, usize, usize))
        ensures
            r.0@ == Self::spec_return_sequence(),
            r.1 == Self::spec_pass_entry(),
            r.2 == Self::spec_drop_entry(),
            r.1 <= Self::spec_reach(),
            r.2 <= Self::spec_reach(),
    ;

    /// The fragment that passes the whole packet.
    fn teotology() -> (r: Vec<Self::Instruction>)
        ensures
            r@ == Self::spec_teotology(),
    ;

    /// The fragment that drops the packet.
    fn contradiction() -> (r: Vec<Self::Instruction>)
        ensures
            r@ == Self::spec_contradiction(),
    ;

    /// The fragment that goes `jt` instructions ahead where `comparison` holds of what
    /// was loaded and `operand`, and `jf` ahead where it does not.
    fn jump(comparison: Self::Comparison, operand: Self::Value, jt: usize, jf: usize) -> (r: Vec<
        Self::Instruction,
    >)
        requires
            jt <= Self::spec_reach(),
            jf <= Self::spec_reach(),
        ensures
            r@ == Self::spec_jump(comparison, operand, jt as int, jf as int),
    ;

    /// The fragment that loads the octet at `offset` of the packet.
    fn load_u8_at(offset: u32) -> (r: Vec<Self::Instruction>)
        ensures
            r@ == Self::spec_load_u8_at(offset),
    ;

    /// The fragment that loads the two octets at `offset` of the packet.
    fn load_u16_at(offset: u32) -> (r: Vec<Self::Instruction>)
        ensures
            r@ == Self::spec_load_u16_at(offset),
    ;

    /// The fragment that loads the four octets at `offset` of the packet.
    fn load_u32_at(offset: u32) -> (r: Vec<Self::Instruction>)
        ensures
            r@ == Self::spec_load_u32_at(offset),
    ;

    /// The comparison with the given code.
    fn comparison(code: u8) -> (r: Self::Comparison)
        ensures
            r == Self::spec_comparison(code),
    ;

    /// The operand that stands for the number `value`.
    fn value(value: u32) -> (r: Self::Value)
        ensures
            r == Self::spec_value(value),
    ;

    /// Packs a finished program for the kernel. A program of more than
    /// [`MAX_INSTRUCTIONS`] instructions is refused with `EOVERFLOW`.
    fn build_attachable(instructions: Vec<Self::Instruction>) -> (r: Result<
        Self::Output,
        SystemError,
    >)
        ensures
            instructions@.len() > MAX_INSTRUCTIONS ==> r == Err::<Self::Output, SystemError>(
                SystemError(EOVERFLOW),
            ),
            instructions@.len() <= MAX_INSTRUCTIONS ==> r is Ok && Self::spec_packs(
                instructions@,
                r->Ok_0,
            ),
    ;
}

/// Classic BPF.
#[derive(Copy, Clone, Debug, Ord, Eq, Hash, PartialEq, PartialOrd)]
pub struct Classic {}

impl Sealed for Classic {

}

impl Backend for Classic {
    type Comparison = cbpf::Comparison;

    type Value = cbpf::Value;

    type Instruction = cbpf::Instruction;

    type Output = cbpf::SocketFilterProgram;

    open spec fn spec_reach() -> nat {
        cbpf::REACH as nat
    }

    /// A classic program needs no preparation.
    open spec fn spec_initialization_sequence() -> Seq<cbpf::Instruction> {
        Seq::empty()
    }

    open spec fn spec_return_sequence() -> Seq<cbpf::Instruction> {
        cbpf::spec_return_sequence()
    }

    open spec fn spec_pass_entry() -> nat {
        0
    }

    open spec fn spec_drop_entry() -> nat {
        2
    }

    open spec fn spec_teotology() -> Seq<cbpf::Instruction> {
        cbpf::spec_teotology()
    }

    open spec fn spec_contradiction() -> Seq<cbpf::Instruction> {
        cbpf::spec_contradiction()
    }

    open spec fn spec_jump(comparison: cbpf::Comparison, operand: u32, jt: int, jf: int) -> Seq<
        cbpf::Instruction,
    > {
        cbpf::spec_jump(comparison, operand, jt, jf)
    }

    open spec fn spec_load_u8_at(offset: u32) -> Seq<cbpf::Instruction> {
        seq![cbpf::spec_load(cbpf::OP_LD_ABS_B, offset)]
    }

    open spec fn spec_load_u16_at(offset: u32) -> Seq<cbpf::Instruction> {
        seq![cbpf::spec_load(cbpf::OP_LD_ABS_H, offset)]
    }

    open spec fn spec_load_u32_at(offset: u32) -> Seq<cbpf::Instruction> {
        seq![cbpf::spec_load(cbpf::OP_LD_ABS_W, offset)]
    }

    open spec fn spec_comparison(code: u8) -> cbpf::Comparison {
        cbpf::Comparison::spec_from_u8(code)
    }

    open spec fn spec_value(value: u32) -> u32 {
        value
    }

    /// The program as `setsockopt` takes it, with a count equal to its length.
    open spec fn spec_packs(
        instructions: Seq<cbpf::Instruction>,
        output: cbpf::SocketFilterProgram,
    ) -> bool {
        output@ == instructions && output.wf()
    }

    open spec fn spec_instruction_key(i: cbpf::Instruction) -> Seq<int> {
        seq![i.code as int, i.jt as int, i.jf as int, i.k as int]
    }

    open spec fn spec_comparison_key(c: cbpf::Comparison) -> Seq<int> {
        seq![c.spec_code() as int]
    }

    open spec fn spec_value_key(v: u32) -> Seq<int> {
        seq![v as int]
    }

    proof fn lemma_instruction_key(a: cbpf::Instruction, b: cbpf::Instruction) {
        let x = Self::spec_instruction_key(a);
        let y = Self::spec_instruction_key(b);
        assert(x[0] == y[0] && x[1] == y[1] && x[2] == y[2] && x[3] == y[3]);
    }

    proof fn lemma_comparison_key(a: cbpf::Comparison, b: cbpf::Comparison) {
        assert(Self::spec_comparison_key(a)[0] == a.spec_code());
        assert(Self::spec_comparison_key(b)[0] == b.spec_code());
    }

    proof fn lemma_value_key(a: u32, b: u32) {
        assert(Self::spec_value_key(a)[0] == a);
        assert(Self::spec_value_key(b)[0] == b);
    }

    fn reach() -> (r: usize) {
        cbpf::REACH
    }

    fn initialization_sequence() -> (r: Vec<cbpf::Instruction>) {
        Vec::new()
    }

    fn return_sequence() -> (r: (Vec<cbpf::Instruction>, usize, usize)) {
        cbpf::return_sequence()
    }

    fn teotology() -> (r: Vec<cbpf::Instruction>) {
        cbpf::teotology()
    }

    fn contradiction() -> (r: Vec<cbpf::Instruction>) {
        cbpf::contradiction()
    }

    fn jump(comparison: cbpf::Comparison, operand: u32, jt: usize, jf: usize) -> (r: Vec<
        cbpf::Instruction,
    >) {
        cbpf::jump(comparison, operand, jt, jf)
    }

    fn load_u8_at(offset: u32) -> (r: Vec<cbpf::Instruction>) {
        cbpf::load_u8_at(offset)
    }

    fn load_u16_at(offset: u32) -> (r: Vec<cbpf::Instruction>) {
        cbpf::load_u16_at(offset)
    }

    fn load_u32_at(offset: u32) -> (r: Vec<cbpf::Instruction>) {
        cbpf::load_u32_at(offset)
    }

    fn comparison(code: u8) -> (r: cbpf::Comparison) {
        cbpf::Comparison::from(code)
    }

    fn value(value: u32) -> (r: u32) {
        value
    }

    fn build_attachable(instructions: Vec<cbpf::Instruction>) -> (r: Result<
        cbpf::SocketFilterProgram,
        SystemError,
    >) {
        let len = instructions.len();
        if len > MAX_INSTRUCTIONS {
            return Err(SystemError(EOVERFLOW));
        }
        Ok(cbpf::SocketFilterProgram::from_vector(instructions))
    }
}

/// Extended BPF.
#[derive(Copy, Clone, Debug, Ord, Eq, Hash, PartialEq, PartialOrd)]
pub struct Extended {}

impl Sealed for Extended {

}

impl Backend for Extended {
    type Comparison = ebpf::Comparison;

    type Value = ebpf::Operand;

    type Instruction = ebpf::Instruction;

    type Output = ebpf::SocketFilterBpfAttribute;

    open spec fn spec_reach() -> nat {
        ebpf::REACH as nat
    }

    open spec fn spec_initialization_sequence() -> Seq<ebpf::Instruction> {
        ebpf::spec_initialization_sequence()
    }

    open spec fn spec_return_sequence() -> Seq<ebpf::Instruction> {
        ebpf::spec_return_sequence()
    }

    open spec fn spec_pass_entry() -> nat {
        0
    }

    open spec fn spec_drop_entry() -> nat {
        2
    }

    open spec fn spec_teotology() -> Seq<ebpf::Instruction> {
        ebpf::spec_teotology()
    }

    open spec fn spec_contradiction() -> Seq<ebpf::Instruction> {
        ebpf::spec_contradiction()
    }

    open spec fn spec_jump(comparison: ebpf::Comparison, operand: ebpf::Operand, jt: int, jf: int)
        -> Seq<ebpf::Instruction> {
        ebpf::spec_jump(comparison, operand, jt, jf)
    }

    open spec fn spec_load_u8_at(offset: u32) -> Seq<ebpf::Instruction> {
        seq![ebpf::spec_load(ebpf::OP_LD_ABS_B, ebpf::spec_signed32(offset))]
    }

    open spec fn spec_load_u16_at(offset: u32) -> Seq<ebpf::Instruction> {
        seq![ebpf::spec_load(ebpf::OP_LD_ABS_H, ebpf::spec_signed32(offset))]
    }

    open spec fn spec_load_u32_at(offset: u32) -> Seq<ebpf::Instruction> {
        seq![ebpf::spec_load(ebpf::OP_LD_ABS_W, ebpf::spec_signed32(offset))]
    }

    open spec fn spec_comparison(code: u8) -> ebpf::Comparison {
        ebpf::Comparison::spec_from_u8(code)
    }

    open spec fn spec_value(value: u32) -> ebpf::Operand {
        ebpf::Operand::spec_from_u32(value)
    }

    /// The program-load request for a socket filter under the GPL license, with no
    /// verifier log asked for.
    open spec fn spec_packs(
        instructions: Seq<ebpf::Instruction>,
        output: ebpf::SocketFilterBpfAttribute,
    ) -> bool {
        &&& output.instructions@ == instructions
        &&& output.instructions_count == instructions.len()
        &&& output.program_type == BPF_PROG_TYPE_SOCKET_FILTER
        &&& output.license@ == ebpf::spec_license()
        &&& output.log_level == 0
        &&& output.log_size == 0
        &&& output.kernel_version == 0
        &&& output.program_flags == 0
    }

    open spec fn spec_instruction_key(i: ebpf::Instruction) -> Seq<int> {
        seq![i.code as int, i.regs as int, i.off as int, i.imm as int]
    }

    open spec fn spec_comparison_key(c: ebpf::Comparison) -> Seq<int> {
        seq![c.spec_code() as int]
    }

    open spec fn spec_value_key(v: ebpf::Operand) -> Seq<int> {
        match v {
            ebpf::Operand::RegAndImm(reg, imm) => seq![0int, reg.spec_index() as int, imm as int],
            ebpf::Operand::DstAndSrc(dst, src) => seq![
                1int,
                dst.spec_index() as int,
                src.spec_index() as int,
            ],
        }
    }

    proof fn lemma_instruction_key(a: ebpf::Instruction, b: ebpf::Instruction) {
        let x = Self::spec_instruction_key(a);
        let y = Self::spec_instruction_key(b);
        assert(x[0] == y[0] && x[1] == y[1] && x[2] == y[2] && x[3] == y[3]);
    }

    proof fn lemma_comparison_key(a: ebpf::Comparison, b: ebpf::Comparison) {
        assert(Self::spec_comparison_key(a)[0] == a.spec_code());
        assert(Self::spec_comparison_key(b)[0] == b.spec_code());
    }

    proof fn lemma_value_key(a: ebpf::Operand, b: ebpf::Operand) {
        let x = Self::spec_value_key(a);
        let y = Self::spec_value_key(b);
        assert(x[0] == y[0] && x[1] == y[1] && x[2] == y[2]);
    }

    fn reach() -> (r: usize) {
        ebpf::REACH
    }

    fn initialization_sequence() -> (r: Vec<ebpf::Instruction>) {
        ebpf::initialization_sequence()
    }

    fn return_sequence() -> (r: (Vec<ebpf::Instruction>, usize, usize)) {
        ebpf::return_sequence()
    }

    fn teotology() -> (r: Vec<ebpf::Instruction>) {
        ebpf::teotology()
    }

    fn contradiction() -> (r: Vec<ebpf::Instruction>) {
        ebpf::contradiction()
    }

    fn jump(comparison: ebpf::Comparison, operand: ebpf::Operand, jt: usize, jf: usize) -> (r: Vec<
        ebpf::Instruction,
    >) {
        ebpf::jump(comparison, operand, jt, jf)
    }

    fn load_u8_at(offset: u32) -> (r: Vec<ebpf::Instruction>) {
        ebpf::load_u8_at(ebpf::signed32(offset))
    }

    fn load_u16_at(offset: u32) -> (r: Vec<ebpf::Instruction>) {
        ebpf::load_u16_at(ebpf::signed32(offset))
    }

    fn load_u32_at(offset: u32) -> (r: Vec<ebpf::Instruction>) {
        ebpf::load_u32_at(ebpf::signed32(offset))
    }

    fn comparison(code: u8) -> (r: ebpf::Comparison) {
        ebpf::Comparison::from(code)
    }

    fn value(value: u32) -> (r: ebpf::Operand) {
        ebpf::Operand::from(value)
    }

    /// Sending the request to the kernel is left to the caller.
    fn build_attachable(instructions: Vec<ebpf::Instruction>) -> (r: Result<
        ebpf::SocketFilterBpfAttribute,
        SystemError,
    >) {
        let len = instructions.len();
        if len > MAX_INSTRUCTIONS {
            return Err(SystemError(EOVERFLOW));
        }
        Ok(ebpf::SocketFilterBpfAttribute::new(instructions, false))
    }
}

} // verus!
