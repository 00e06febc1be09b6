//! Extended BPF: the instruction record, registers, comparisons and the fragments the
//! compiler assembles programs from.
//!
//! Fragments are written in emission order, which is the reverse of execution order: the
//! compiler reverses the whole program once at the end.

use vstd::prelude::*;
use crate::consts::BPF_PROG_TYPE_SOCKET_FILTER;
use crate::system::SystemError;

verus! {

/// A register of the extended machine.
#[derive(Debug, Copy, Clone, Ord, PartialOrd, Eq, PartialEq, Hash, Structural)]
pub enum Register {
    /// R0: the program's return value at exit.
    Ret,
    /// R1: on entry, the program's context; for a socket filter, the socket buffer.
    Context,
    /// R2 to R5: arguments of helper calls.
    Arg1,
    Arg2,
    Arg3,
    Arg4,
    /// R6: the socket buffer, as packet loads expect it.
    SocketBuffer,
    /// R7 to R9: kept across helper calls.
    Gen1,
    Gen2,
    Gen3,
    /// R10: the read-only frame pointer.
    FramePointer,
}

impl Register {
    pub open spec fn spec_index(self) -> u8 {
        match self {
            Register::Ret => 0,
            Register::Context => 1,
            Register::Arg1 => 2,
            Register::Arg2 => 3,
            Register::Arg3 => 4,
            Register::Arg4 => 5,
            Register::SocketBuffer => 6,
            Register::Gen1 => 7,
            Register::Gen2 => 8,
            Register::Gen3 => 9,
            Register::FramePointer => 10,
        }
    }

    /// The register's number.
    pub fn index(self) -> (i: u8)
        ensures
            i == self.spec_index(),
            i <= 10,
    {
        match self {
            Register::Ret => 0,
            Register::Context => 1,
            Register::Arg1 => 2,
            Register::Arg2 => 3,
            Register::Arg3 => 4,
            Register::Arg4 => 5,
            Register::SocketBuffer => 6,
            Register::Gen1 => 7,
            Register::Gen2 => 8,
            Register::Gen3 => 9,
            Register::FramePointer => 10,
        }
    }
}

/// One extended instruction, laid out as the kernel's `bpf_insn`.
#[derive(Debug, Default, Copy, Clone, Hash, Ord, PartialOrd, Eq, PartialEq, Structural)]
pub struct Instruction {
    pub code: u8,
    /// Destination register in the high four bits, source register in the low four.
    pub regs: u8,
    pub off: i16,
    pub imm: i32,
}

/// The register octet that names `dst` and `src`.
pub open spec fn spec_regs(dst: Register, src: Register) -> u8 {
    (dst.spec_index() * 16 + src.spec_index()) as u8
}

/// The low sixteen bits of `off` as an unsigned number.
pub open spec fn spec_low16(off: i16) -> int {
    if off < 0 {
        off + 65536
    } else {
        off as int
    }
}

/// The low thirty-two bits of `imm` as an unsigned number.
pub open spec fn spec_low32(imm: i32) -> int {
    if imm < 0 {
        imm + 4294967296
    } else {
        imm as int
    }
}

/// The signed number with the same thirty-two bits as `u`.
pub open spec fn spec_signed32(u: u32) -> i32 {
    if u < 0x8000_0000 {
        u as i32
    } else {
        (u - 4294967296) as i32
    }
}

/// Reads the bits of `u` as a signed number.
pub fn signed32(u: u32) -> (r: i32)
    ensures
        r == spec_signed32(u),
{
    if u < 0x8000_0000 {
        u as i32
    } else {
        let below: u32 = u - 0x8000_0000;
        (below as i32) + i32::MIN
    }
}

impl Instruction {
    pub open spec fn spec_new(code: u8, dst: Register, src: Register, off: i16, imm: i32) -> Self {
        Instruction { code, regs: spec_regs(dst, src), off, imm }
    }

    /// An instruction with the given fields.
    pub fn new(code: u8, dst_reg: Register, src_reg: Register, off: i16, imm: i32) -> (r: Self)
        ensures
            r == Self::spec_new(code, dst_reg, src_reg, off, imm),
    {
        Instruction { code, regs: dst_reg.index() * 16 + src_reg.index(), off, imm }
    }

    /// An instruction with the given opcode and every other field zero.
    pub fn from_code(code: u8) -> (r: Self)
        ensures
            r == (Instruction { code, regs: 0, off: 0, imm: 0 }),
    {
        Instruction { code, regs: 0, off: 0, imm: 0 }
    }

    /// The eight octets of the record on a little-endian host.
    pub open spec fn spec_encode(self) -> Seq<u8> {
        let off = spec_low16(self.off);
        let imm = spec_low32(self.imm);
        seq![
            self.code,
            self.regs,
            (off % 256) as u8,
            (off / 256) as u8,
            (imm % 256) as u8,
            (imm / 256 % 256) as u8,
            (imm / 65536 % 256) as u8,
            (imm / 16777216) as u8,
        ]
    }

    /// Encodes the record as the kernel reads it on a little-endian host.
    pub fn encode(self) -> (bytes: Vec<u8>)
        ensures
            bytes@ == self.spec_encode(),
    {
        let off: u32 = if self.off < 0 {
            (self.off as i32 + 65536) as u32
        } else {
            self.off as u32
        };
        let imm: u64 = if self.imm < 0 {
            (self.imm as i64 + 4294967296) as u64
        } else {
            self.imm as u64
        };
        let bytes = vec![
            self.code,
            self.regs,
            (off % 256) as u8,
            (off / 256) as u8,
            (imm % 256) as u8,
            (imm / 256 % 256) as u8,
            (imm / 65536 % 256) as u8,
            (imm / 16777216) as u8,
        ];
        assert(bytes@ =~= self.spec_encode());
        bytes
    }
}

/// `BPF_JMP | BPF_EXIT`: leave the program with the value in R0.
pub const OP_EXIT: u8 = 0x95;

/// `BPF_LDX | BPF_W | BPF_MEM`: load four octets from the address in the source register.
pub const OP_LDX_MEM_W: u8 = 0x61;

/// `BPF_ALU64 | BPF_MOV | BPF_K`: set the destination register to the immediate.
pub const OP_MOV64_K: u8 = 0xb7;

/// `BPF_ALU64 | BPF_MOV | BPF_X`: copy the source register to the destination.
pub const OP_MOV64_X: u8 = 0xbf;

/// `BPF_JMP | BPF_JA`: skip `off` instructions.
pub const OP_JA: u8 = 0x05;

/// `BPF_LD | BPF_ABS | BPF_W`: load four octets of the packet at `imm` into R0.
pub const OP_LD_ABS_W: u8 = 0x20;

/// `BPF_LD | BPF_ABS | BPF_H`: load two octets of the packet at `imm` into R0.
pub const OP_LD_ABS_H: u8 = 0x28;

/// `BPF_LD | BPF_ABS | BPF_B`: load one octet of the packet at `imm` into R0.
pub const OP_LD_ABS_B: u8 = 0x30;

/// Where the packet's length stands in the socket buffer.
pub const OFFSET_SK_BUFF_LEN: i16 = 0;

/// The longest distance [`jump`] can encode.
pub const REACH: usize = 32766;

/// The relation a conditional jump tests between its two operands.
#[derive(Copy, Clone, Debug, Ord, Eq, Hash, PartialEq, PartialOrd, Structural)]
pub enum Comparison {
    /// Always true.
    Always,
    /// The two are equal.
    Equal,
    /// The first is greater.
    GreaterThan,
    /// The first is greater or equal.
    GreaterEqual,
    /// The two have a set bit in common.
    AndMask,
    /// The two differ.
    NotEqual,
    /// The first is greater, both read as signed.
    SignedGreaterThan,
    /// The first is greater or equal, both read as signed.
    SignedGreaterEqual,
    /// The first is lesser.
    LesserThan,
    /// The first is lesser or equal.
    LesserEqual,
    /// The first is lesser, both read as signed.
    SignedLesserThan,
    /// The first is lesser or equal, both read as signed.
    SignedLesserEqual,
    /// Any other code.
    Unknown,
}

impl Comparison {
    pub open spec fn spec_code(self) -> u8 {
        match self {
            Comparison::Always => 0x00,
            Comparison::Equal => 0x10,
            Comparison::GreaterThan => 0x20,
            Comparison::GreaterEqual => 0x30,
            Comparison::AndMask => 0x40,
            Comparison::NotEqual => 0x50,
            Comparison::SignedGreaterThan => 0x60,
            Comparison::SignedGreaterEqual => 0x70,
            Comparison::LesserThan => 0xa0,
            Comparison::LesserEqual => 0xb0,
            Comparison::SignedLesserThan => 0xc0,
            Comparison::SignedLesserEqual => 0xd0,
            Comparison::Unknown => 0xd1,
        }
    }

    /// The comparison's bits in a jump opcode.
    pub fn code(self) -> (code: u8)
        ensures
            code == self.spec_code(),
    {
        match self {
            Comparison::Always => 0x00,
            Comparison::Equal => 0x10,
            Comparison::GreaterThan => 0x20,
            Comparison::GreaterEqual => 0x30,
            Comparison::AndMask => 0x40,
            Comparison::NotEqual => 0x50,
            Comparison::SignedGreaterThan => 0x60,
            Comparison::SignedGreaterEqual => 0x70,
            Comparison::LesserThan => 0xa0,
            Comparison::LesserEqual => 0xb0,
            Comparison::SignedLesserThan => 0xc0,
            Comparison::SignedLesserEqual => 0xd0,
            Comparison::Unknown => 0xd1,
        }
    }

    pub open spec fn spec_from_u8(value: u8) -> Comparison {
        if value == 0x00 {
            Comparison::Always
        } else if value == 0x10 {
            Comparison::Equal
        } else if value == 0x20 {
            Comparison::GreaterThan
        } else if value == 0x30 {
            Comparison::GreaterEqual
        } else if value == 0x40 {
            Comparison::AndMask
        } else if value == 0x50 {
            Comparison::NotEqual
        } else if value == 0x60 {
            Comparison::SignedGreaterThan
        } else if value == 0x70 {
            Comparison::SignedGreaterEqual
        } else if value == 0xa0 {
            Comparison::LesserThan
        } else if value == 0xb0 {
            Comparison::LesserEqual
        } else if value == 0xc0 {
            Comparison::SignedLesserThan
        } else if value == 0xd0 {
            Comparison::SignedLesserEqual
        } else {
            Comparison::Unknown
        }
    }

    /// `BPF_JMP | code | BPF_K`: the opcode of the jump that tests this comparison
    /// against an immediate. Every code but that of `Unknown` has its low four bits clear.
    pub open spec fn spec_opcode_imm(self) -> u8 {
        if self is Unknown {
            0xd5
        } else {
            (self.spec_code() + 0x05) as u8
        }
    }

    /// `BPF_JMP | code | BPF_X`: the opcode of the jump that tests this comparison
    /// against a register.
    pub open spec fn spec_opcode_reg(self) -> u8 {
        if self is Unknown {
            0xdd
        } else {
            (self.spec_code() + 0x0d) as u8
        }
    }

    /// The opcode of the jump that tests this comparison against an immediate.
    pub fn opcode_imm(self) -> (code: u8)
        ensures
            code == self.spec_opcode_imm(),
    {
        match self {
            Comparison::Unknown => 0xd5,
            _ => self.code() + 0x05,
        }
    }

    /// The opcode of the jump that tests this comparison against a register.
    pub fn opcode_reg(self) -> (code: u8)
        ensures
            code == self.spec_opcode_reg(),
    {
        match self {
            Comparison::Unknown => 0xdd,
            _ => self.code() + 0x0d,
        }
    }
}

impl From<u8> for Comparison {
    /// The comparison with the given code, `Unknown` where there is none.
    fn from(value: u8) -> (r: Comparison) {
        if value == 0x00 {
            Comparison::Always
        } else if value == 0x10 {
            Comparison::Equal
        } else if value == 0x20 {
            Comparison::GreaterThan
        } else if value == 0x30 {
            Comparison::GreaterEqual
        } else if value == 0x40 {
            Comparison::AndMask
        } else if value == 0x50 {
            Comparison::NotEqual
        } else if value == 0x60 {
            Comparison::SignedGreaterThan
        } else if value == 0x70 {
            Comparison::SignedGreaterEqual
        } else if value == 0xa0 {
            Comparison::LesserThan
        } else if value == 0xb0 {
            Comparison::LesserEqual
        } else if value == 0xc0 {
            Comparison::SignedLesserThan
        } else if value == 0xd0 {
            Comparison::SignedLesserEqual
        } else {
            Comparison::Unknown
        }
    }
}

impl vstd::std_specs::convert::FromSpecImpl<u8> for Comparison {
    open spec fn obeys_from_spec() -> bool {
        true
    }

    open spec fn from_spec(value: u8) -> Comparison {
        Comparison::spec_from_u8(value)
    }
}

/// The two operands of a comparison.
#[derive(Copy, Clone, Debug, Ord, Eq, Hash, PartialEq, PartialOrd, Structural)]
pub enum Operand {
    /// A register and an immediate.
    RegAndImm(Register, i32),
    /// Two registers.
    DstAndSrc(Register, Register),
}

impl Operand {
    /// R0, where packet loads leave their result, against the bits of `u`.
    pub open spec fn spec_from_u32(u: u32) -> Operand {
        Operand::RegAndImm(Register::Ret, spec_signed32(u))
    }
}

impl From<u32> for Operand {
    /// R0, where packet loads leave their result, against the bits of `u`.
    fn from(u: u32) -> (r: Operand) {
        Operand::RegAndImm(Register::Ret, signed32(u))
    }
}

impl vstd::std_specs::convert::FromSpecImpl<u32> for Operand {
    open spec fn obeys_from_spec() -> bool {
        true
    }

    open spec fn from_spec(u: u32) -> Operand {
        Operand::spec_from_u32(u)
    }
}

/// `exit`.
pub open spec fn spec_exit() -> Instruction {
    Instruction { code: OP_EXIT, regs: 0, off: 0, imm: 0 }
}

/// `dst = len`: load the packet's length from the socket buffer in R6.
pub open spec fn spec_load_packet_length(dst: Register) -> Instruction {
    Instruction::spec_new(OP_LDX_MEM_W, dst, Register::SocketBuffer, OFFSET_SK_BUFF_LEN, 0)
}

/// `dst = imm`.
pub open spec fn spec_copy_imm(dst: Register, imm: i32) -> Instruction {
    Instruction::spec_new(OP_MOV64_K, dst, Register::Ret, 0, imm)
}

/// `dst = src`.
pub open spec fn spec_copy(dst: Register, src: Register) -> Instruction {
    Instruction::spec_new(OP_MOV64_X, dst, src, 0, 0)
}

/// An unconditional jump over `offset` instructions.
pub open spec fn spec_jump_always(offset: i16) -> Instruction {
    Instruction::spec_new(OP_JA, Register::Ret, Register::Ret, offset, 0)
}

/// A jump over `offset` instructions where `comparison` holds of `reg` and `imm`.
pub open spec fn spec_jump_imm(comparison: Comparison, reg: Register, imm: i32, offset: i16)
    -> Instruction {
    Instruction::spec_new(comparison.spec_opcode_imm(), reg, Register::Ret, offset, imm)
}

/// A jump over `offset` instructions where `comparison` holds of `dst` and `src`.
pub open spec fn spec_jump_reg(comparison: Comparison, dst: Register, src: Register, offset: i16)
    -> Instruction {
    Instruction::spec_new(comparison.spec_opcode_reg(), dst, src, offset, 0)
}

/// A load of `code`'s width from the packet at `offset` into R0.
pub open spec fn spec_load(code: u8, offset: i32) -> Instruction {
    Instruction::spec_new(code, Register::Ret, Register::Ret, 0, offset)
}

pub open spec fn spec_initialization_sequence() -> Seq<Instruction> {
    seq![spec_copy(Register::SocketBuffer, Register::Context)]
}

pub open spec fn spec_return_sequence() -> Seq<Instruction> {
    seq![
        spec_exit(),
        spec_copy_imm(Register::Ret, 0),
        spec_jump_always(1),
        spec_load_packet_length(Register::Ret),
    ]
}

pub open spec fn spec_teotology() -> Seq<Instruction> {
    seq![spec_exit(), spec_load_packet_length(Register::Ret)]
}

pub open spec fn spec_contradiction() -> Seq<Instruction> {
    seq![spec_exit(), spec_copy_imm(Register::Ret, 0)]
}

/// The jump that goes `jt` instructions ahead where `comparison` holds of `operand` and
/// `jf` ahead where it does not, in emission order: a conditional jump that skips the
/// unconditional one behind it and `jt` more, and that unconditional jump over `jf`.
pub open spec fn spec_jump(comparison: Comparison, operand: Operand, jt: int, jf: int) -> Seq<
    Instruction,
> {
    match operand {
        Operand::DstAndSrc(dst, src) => seq![
            spec_jump_always(jf as i16),
            spec_jump_reg(comparison, dst, src, (jt + 1) as i16),
        ],
        Operand::RegAndImm(reg, imm) => seq![
            spec_jump_always(jf as i16),
            spec_jump_imm(comparison, reg, imm, (jt + 1) as i16),
        ],
    }
}

fn exit() -> (r: Instruction)
    ensures
        r == spec_exit(),
{
    Instruction::from_code(OP_EXIT)
}

fn load_packet_length(dst: Register) -> (r: Instruction)
    ensures
        r == spec_load_packet_length(dst),
{
    Instruction::new(OP_LDX_MEM_W, dst, Register::SocketBuffer, OFFSET_SK_BUFF_LEN, 0)
}

fn copy_imm(dst: Register, imm: i32) -> (r: Instruction)
    ensures
        r == spec_copy_imm(dst, imm),
{
    Instruction::new(OP_MOV64_K, dst, Register::Ret, 0, imm)
}

fn copy(dst: Register, src: Register) -> (r: Instruction)
    ensures
        r == spec_copy(dst, src),
{
    Instruction::new(OP_MOV64_X, dst, src, 0, 0)
}

fn jump_always(offset: i16) -> (r: Instruction)
    ensures
        r == spec_jump_always(offset),
{
    Instruction::new(OP_JA, Register::Ret, Register::Ret, offset, 0)
}

fn jump_imm(comparison: Comparison, reg: Register, imm: i32, offset: i16) -> (r: Instruction)
    ensures
        r == spec_jump_imm(comparison, reg, imm, offset),
{
    Instruction::new(comparison.opcode_imm(), reg, Register::Ret, offset, imm)
}

fn jump_reg(comparison: Comparison, dst: Register, src: Register, offset: i16) -> (r: Instruction)
    ensures
        r == spec_jump_reg(comparison, dst, src, offset),
{
    Instruction::new(comparison.opcode_reg(), dst, src, offset, 0)
}

/// The fragment that makes R6 the socket buffer, which every packet load needs.
pub fn initialization_sequence() -> (r: Vec<Instruction>)
    ensures
        r@ == spec_initialization_sequence(),
{
    let v = vec![copy(Register::SocketBuffer, Register::Context)];
    assert(v@ =~= spec_initialization_sequence());
    v
}

/// The exit block, and the distances from the instruction before it to its PASS entry and
/// to its DROP entry.
///
/// In execution order the block reads `R0 = len; skip 1; R0 = 0; exit`: whoever enters at
/// the first instruction passes the whole packet, whoever enters at the third drops it.
pub fn return_sequence() -> (r: (Vec<Instruction>, usize, usize))
    ensures
        r.0@ == spec_return_sequence(),
        r.1 == 0,
        r.2 == 2,
{
    let v = vec![
        exit(),
        copy_imm(Register::Ret, 0),
        jump_always(1),
        load_packet_length(Register::Ret),
    ];
    assert(v@ =~= spec_return_sequence());
    (v, 0, 2)
}

/// The fragment that passes the whole packet.
pub fn teotology() -> (r: Vec<Instruction>)
    ensures
        r@ == spec_teotology(),
{
    let v = vec![exit(), load_packet_length(Register::Ret)];
    assert(v@ =~= spec_teotology());
    v
}

/// The fragment that drops the packet.
pub fn contradiction() -> (r: Vec<Instruction>)
    ensures
        r@ == spec_contradiction(),
{
    let v = vec![exit(), copy_imm(Register::Ret, 0)];
    assert(v@ =~= spec_contradiction());
    v
}

/// The conditional jump of [`spec_jump`].
pub fn jump(comparison: Comparison, operand: Operand, jt: usize, jf: usize) -> (r: Vec<
    Instruction,
>)
    requires
        jt <= REACH,
        jf <= REACH,
    ensures
        r@ == spec_jump(comparison, operand, jt as int, jf as int),
{
    let distance_to_true_label: i16 = (jt + 1) as i16;
    let v = match operand {
        Operand::DstAndSrc(dst, src) => vec![
            jump_always(jf as i16),
            jump_reg(comparison, dst, src, distance_to_true_label),
        ],
        Operand::RegAndImm(reg, imm) => vec![
            jump_always(jf as i16),
            jump_imm(comparison, reg, imm, distance_to_true_label),
        ],
    };
    assert(v@ =~= spec_jump(comparison, operand, jt as int, jf as int));
    v
}

/// The fragment that loads the octet at `offset` into R0.
pub fn load_u8_at(offset: i32) -> (r: Vec<Instruction>)
    ensures
        r@ == seq![spec_load(OP_LD_ABS_B, offset)],
{
    let v = vec![Instruction::new(OP_LD_ABS_B, Register::Ret, Register::Ret, 0, offset)];
    assert(v@ =~= seq![spec_load(OP_LD_ABS_B, offset)]);
    v
}

/// The fragment that loads the two octets at `offset` into R0.
pub fn load_u16_at(offset: i32) -> (r: Vec<Instruction>)
    ensures
        r@ == seq![spec_load(OP_LD_ABS_H, offset)],
{
    let v = vec![Instruction::new(OP_LD_ABS_H, Register::Ret, Register::Ret, 0, offset)];
    assert(v@ =~= seq![spec_load(OP_LD_ABS_H, offset)]);
    v
}

/// The fragment that loads the four octets at `offset` into R0.
pub fn load_u32_at(offset: i32) -> (r: Vec<Instruction>)
    ensures
        r@ == seq![spec_load(OP_LD_ABS_W, offset)],
{
    let v = vec![Instruction::new(OP_LD_ABS_W, Register::Ret, Register::Ret, 0, offset)];
    assert(v@ =~= seq![spec_load(OP_LD_ABS_W, offset)]);
    v
}

/// The descriptor of a program that the kernel has verified and loaded.
#[derive(Debug, Copy, Clone, PartialEq, Eq, Structural)]
pub struct SocketFilterFd {
    pub fd: i32,
}

impl SocketFilterFd {
    /// Reads what a program-load request returned: a descriptor where it is not negative,
    /// else the error whose number is the negated value.
    pub fn from_load_result(ret: i32) -> (r: Result<SocketFilterFd, SystemError>)
        requires
            ret > i32::MIN,
        ensures
            ret >= 0 ==> r == Ok::<SocketFilterFd, SystemError>(SocketFilterFd { fd: ret }),
            ret < 0 ==> r == Err::<SocketFilterFd, SystemError>(SystemError((-ret) as i32)),
    {
        if ret >= 0 {
            Ok(SocketFilterFd { fd: ret })
        } else {
            Err(SystemError(-ret))
        }
    }
}

/// What a program-load request says of a socket filter, with the instructions, the
/// license and the log buffer held by value.
#[derive(Debug, Clone)]
pub struct SocketFilterBpfAttribute {
    pub program_type: u32,
    pub instructions_count: u32,
    pub instructions: Vec<Instruction>,
    /// The license string, without its closing zero octet.
    pub license: Vec<u8>,
    pub log_level: u32,
    pub log_size: u32,
    pub kernel_version: u32,
    pub program_flags: u32,
}

/// The octets of `GPL`.
pub open spec fn spec_license() -> Seq<u8> {
    seq![0x47u8, 0x50u8, 0x4cu8]
}

impl SocketFilterBpfAttribute {
    /// The request for the program `v` under the GPL license. With `log` the kernel is
    /// asked for a verifier log of up to 4096 octets, without it for none.
    pub fn new(v: Vec<Instruction>, log: bool) -> (r: Self)
        requires
            v@.len() <= u32::MAX,
        ensures
            r.program_type == BPF_PROG_TYPE_SOCKET_FILTER,
            r.instructions_count == v@.len(),
            r.instructions@ == v@,
            r.license@ == spec_license(),
            r.log_level == (if log { 1u32 } else { 0u32 }),
            r.log_size == (if log { 4096u32 } else { 0u32 }),
            r.kernel_version == 0,
            r.program_flags == 0,
    {
        let instructions_count = v.len() as u32;
        let license = vec![0x47u8, 0x50u8, 0x4cu8];
        assert(license@ =~= spec_license());
        SocketFilterBpfAttribute {
            program_type: BPF_PROG_TYPE_SOCKET_FILTER,
            instructions_count,
            instructions: v,
            license,
            log_level: if log { 1 } else { 0 },
            log_size: if log { 4096 } else { 0 },
            kernel_version: 0,
            program_flags: 0,
        }
    }
}

} // verus!
