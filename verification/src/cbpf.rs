//! Classic BPF: the instruction record, its comparisons and the fragments the compiler
//! assembles programs from.
//!
//! Fragments are written in emission order, which is the reverse of execution order: the
//! compiler reverses the whole program once at the end.

use vstd::prelude::*;

verus! {

/// One classic instruction, laid out as the kernel's `sock_filter`.
#[derive(Debug, Default, Copy, Clone, Hash, Ord, PartialOrd, Eq, PartialEq, Structural)]
pub struct SocketFilter {
    pub code: u16,
    pub jt: u8,
    pub jf: u8,
    pub k: u32,
}

pub type Instruction = SocketFilter;

/// Operand of a comparison: the immediate `k`.
pub type Value = u32;

impl SocketFilter {
    /// An instruction with the given fields.
    pub fn new(code: u16, jt: u8, jf: u8, k: u32) -> (r: Self)
        ensures
            r == (SocketFilter { code, jt, jf, k }),
    {
        SocketFilter { code, jt, jf, k }
    }

    /// An instruction with the given opcode and every other field zero.
    pub fn from_code(code: u16) -> (r: Self)
        ensures
            r == (SocketFilter { code, jt: 0, jf: 0, k: 0 }),
    {
        SocketFilter { code, jt: 0, jf: 0, k: 0 }
    }

    /// The eight octets of the record on a little-endian host.
    pub open spec fn spec_encode(self) -> Seq<u8> {
        seq![
            (self.code % 256) as u8,
            (self.code / 256) as u8,
            self.jt,
            self.jf,
            (self.k % 256) as u8,
            (self.k / 256 % 256) as u8,
            (self.k / 65536 % 256) as u8,
            (self.k / 16777216) as u8,
        ]
    }

    /// Encodes the record as the kernel reads it on a little-endian host.
    pub fn encode(self) -> (bytes: Vec<u8>)
        ensures
            bytes@ == self.spec_encode(),
    {
        let bytes = vec![
            (self.code % 256) as u8,
            (self.code / 256) as u8,
            self.jt,
            self.jf,
            (self.k % 256) as u8,
            (self.k / 256 % 256) as u8,
            (self.k / 65536 % 256) as u8,
            (self.k / 16777216) as u8,
        ];
        assert(bytes@ =~= self.spec_encode());
        bytes
    }
}

/// `BPF_RET | BPF_K`: return the immediate.
pub const OP_RET_K: u16 = 0x06;

/// `BPF_RET | BPF_A`: return the accumulator.
pub const OP_RET_A: u16 = 0x16;

/// `BPF_LD | BPF_LEN | BPF_W`: load the packet's length.
pub const OP_LD_LEN: u16 = 0x80;

/// `BPF_LD | BPF_ABS | BPF_W`: load four octets at `k`.
pub const OP_LD_ABS_W: u16 = 0x20;

/// `BPF_LD | BPF_ABS | BPF_H`: load two octets at `k`.
pub const OP_LD_ABS_H: u16 = 0x28;

/// `BPF_LD | BPF_ABS | BPF_B`: load one octet at `k`.
pub const OP_LD_ABS_B: u16 = 0x30;

/// `BPF_JMP | BPF_JA | BPF_K`: skip `k` instructions.
pub const OP_JA: u16 = 0x05;

/// The longest distance the two one-octet branch fields are used for. A longer one goes
/// through a trampoline.
pub const SHORT_JUMP: usize = 254;

/// The longest distance [`jump`] can encode.
pub const REACH: usize = 0xFFFF_FFFE;

/// The relation a conditional jump tests between the accumulator and its operand.
#[derive(Copy, Clone, Debug, Ord, Eq, Hash, PartialEq, PartialOrd, Structural)]
pub enum Comparison {
    /// Always true.
    Always,
    /// The two are equal.
    Equal,
    /// The accumulator is greater.
    GreaterThan,
    /// The accumulator is greater or equal.
    GreaterEqual,
    /// The accumulator and the operand have a set bit in common.
    AndMask,
    /// Any other code.
    Unknown,
}

impl Comparison {
    pub open spec fn spec_code(self) -> u8 {
        match self {
            Comparison::Always => 0x00,
            Comparison::Equal => 0x10,
            Comparison::GreaterThan => 0x20,
            Comparison::GreaterEqual => 0x30,
            Comparison::AndMask => 0x40,
            Comparison::Unknown => 0x41,
        }
    }

    /// The comparison's bits in a jump opcode.
    pub fn code(self) -> (code: u8)
        ensures
            code == self.spec_code(),
    {
        match self {
            Comparison::Always => 0x00,
            Comparison::Equal => 0x10,
            Comparison::GreaterThan => 0x20,
            Comparison::GreaterEqual => 0x30,
            Comparison::AndMask => 0x40,
            Comparison::Unknown => 0x41,
        }
    }

    pub open spec fn spec_from_u8(value: u8) -> Comparison {
        if value == 0x00 {
            Comparison::Always
        } else if value == 0x10 {
            Comparison::Equal
        } else if value == 0x20 {
            Comparison::GreaterThan
        } else if value == 0x30 {
            Comparison::GreaterEqual
        } else if value == 0x40 {
            Comparison::AndMask
        } else {
            Comparison::Unknown
        }
    }

    /// `BPF_JMP | code | BPF_K`: the opcode of the jump that tests this comparison
    /// against an immediate.
    pub open spec fn spec_opcode(self) -> u16 {
        match self {
            Comparison::Always => 0x05,
            Comparison::Equal => 0x15,
            Comparison::GreaterThan => 0x25,
            Comparison::GreaterEqual => 0x35,
            Comparison::AndMask => 0x45,
            Comparison::Unknown => 0x45,
        }
    }

    /// The opcode of the jump that tests this comparison against an immediate.
    pub fn opcode(self) -> (code: u16)
        ensures
            code == self.spec_opcode(),
    {
        match self {
            Comparison::Always => 0x05,
            Comparison::Equal => 0x15,
            Comparison::GreaterThan => 0x25,
            Comparison::GreaterEqual => 0x35,
            Comparison::AndMask => 0x45,
            Comparison::Unknown => 0x45,
        }
    }
}

impl From<u8> for Comparison {
    /// The comparison with the given code, `Unknown` where there is none.
    fn from(value: u8) -> (r: Comparison) {
        if value == 0x00 {
            Comparison::Always
        } else if value == 0x10 {
            Comparison::Equal
        } else if value == 0x20 {
            Comparison::GreaterThan
        } else if value == 0x30 {
            Comparison::GreaterEqual
        } else if value == 0x40 {
            Comparison::AndMask
        } else {
            Comparison::Unknown
        }
    }
}

impl vstd::std_specs::convert::FromSpecImpl<u8> for Comparison {
    open spec fn obeys_from_spec() -> bool {
        true
    }

    open spec fn from_spec(value: u8) -> Comparison {
        Comparison::spec_from_u8(value)
    }
}

/// `return 0`: drop the packet.
pub open spec fn spec_drop() -> SocketFilter {
    SocketFilter { code: OP_RET_K, jt: 0, jf: 0, k: 0 }
}

/// `return A`: truncate the packet to the length in the accumulator.
pub open spec fn spec_return_a() -> SocketFilter {
    SocketFilter { code: OP_RET_A, jt: 0, jf: 0, k: 0 }
}

/// `A = len`: load the packet's length.
pub open spec fn spec_load_length() -> SocketFilter {
    SocketFilter { code: OP_LD_LEN, jt: 0, jf: 0, k: 0 }
}

/// An unconditional jump over `k` instructions.
pub open spec fn spec_jump_always(k: u32) -> SocketFilter {
    SocketFilter { code: OP_JA, jt: 0, jf: 0, k }
}

/// A load of `code`'s width from the packet at `offset`.
pub open spec fn spec_load(code: u16, offset: u32) -> SocketFilter {
    SocketFilter { code, jt: 0, jf: 0, k: offset }
}

pub open spec fn spec_return_sequence() -> Seq<SocketFilter> {
    seq![spec_drop(), spec_return_a(), spec_load_length()]
}

pub open spec fn spec_teotology() -> Seq<SocketFilter> {
    seq![spec_return_a(), spec_load_length()]
}

pub open spec fn spec_contradiction() -> Seq<SocketFilter> {
    seq![spec_drop()]
}

/// The jump that goes `jt` instructions ahead where `comparison` holds of the accumulator
/// and `operand`, and `jf` ahead where it does not, in emission order.
///
/// A distance of up to [`SHORT_JUMP`] is written into the jump itself. A longer one is
/// taken by an unconditional jump that stands right behind the conditional one, which then
/// branches to it; the other branch skips it.
pub open spec fn spec_jump(comparison: Comparison, operand: u32, jt: int, jf: int) -> Seq<
    SocketFilter,
> {
    let code = comparison.spec_opcode();
    if jt <= SHORT_JUMP && jf <= SHORT_JUMP {
        seq![SocketFilter { code, jt: jt as u8, jf: jf as u8, k: operand }]
    } else if jt <= SHORT_JUMP {
        seq![
            spec_jump_always(jf as u32),
            SocketFilter { code, jt: (jt + 1) as u8, jf: 0, k: operand },
        ]
    } else if jf <= SHORT_JUMP {
        seq![
            spec_jump_always(jt as u32),
            SocketFilter { code, jt: 0, jf: (jf + 1) as u8, k: operand },
        ]
    } else {
        seq![
            spec_jump_always(jf as u32),
            spec_jump_always((jt + 1) as u32),
            SocketFilter { code, jt: 0, jf: 1, k: operand },
        ]
    }
}

/// The exit block, and the distances from the instruction before it to its PASS entry and
/// to its DROP entry.
///
/// In execution order the block reads `A = len; return A; return 0`: whoever enters at the
/// first instruction passes the whole packet, whoever enters at the third drops it.
pub fn return_sequence() -> (r: (Vec<SocketFilter>, usize, usize))
    ensures
        r.0@ == spec_return_sequence(),
        r.1 == 0,
        r.2 == 2,
{
    let v = vec![
        SocketFilter::new(OP_RET_K, 0, 0, 0),
        SocketFilter::new(OP_RET_A, 0, 0, 0),
        SocketFilter::new(OP_LD_LEN, 0, 0, 0),
    ];
    assert(v@ =~= spec_return_sequence());
    (v, 0, 2)
}

/// The fragment that passes the whole packet.
pub fn teotology() -> (r: Vec<SocketFilter>)
    ensures
        r@ == spec_teotology(),
{
    let v = vec![SocketFilter::new(OP_RET_A, 0, 0, 0), SocketFilter::new(OP_LD_LEN, 0, 0, 0)];
    assert(v@ =~= spec_teotology());
    v
}

/// The fragment that drops the packet.
pub fn contradiction() -> (r: Vec<SocketFilter>)
    ensures
        r@ == spec_contradiction(),
{
    let v = vec![SocketFilter::new(OP_RET_K, 0, 0, 0)];
    assert(v@ =~= spec_contradiction());
    v
}

/// The conditional jump of [`spec_jump`].
pub fn jump(comparison: Comparison, operand: u32, jt: usize, jf: usize) -> (r: Vec<SocketFilter>)
    requires
        jt <= REACH,
        jf <= REACH,
    ensures
        r@ == spec_jump(comparison, operand, jt as int, jf as int),
{
    let code = comparison.opcode();
    let v = if jt <= SHORT_JUMP && jf <= SHORT_JUMP {
        vec![SocketFilter::new(code, jt as u8, jf as u8, operand)]
    } else if jt <= SHORT_JUMP {
        vec![
            SocketFilter::new(OP_JA, 0, 0, jf as u32),
            SocketFilter::new(code, (jt + 1) as u8, 0, operand),
        ]
    } else if jf <= SHORT_JUMP {
        vec![
            SocketFilter::new(OP_JA, 0, 0, jt as u32),
            SocketFilter::new(code, 0, (jf + 1) as u8, operand),
        ]
    } else {
        vec![
            SocketFilter::new(OP_JA, 0, 0, jf as u32),
            SocketFilter::new(OP_JA, 0, 0, (jt + 1) as u32),
            SocketFilter::new(code, 0, 1, operand),
        ]
    };
    assert(v@ =~= spec_jump(comparison, operand, jt as int, jf as int));
    v
}

/// The fragment that loads the octet at `offset` into the accumulator.
pub fn load_u8_at(offset: u32) -> (r: Vec<SocketFilter>)
    ensures
        r@ == seq![spec_load(OP_LD_ABS_B, offset)],
{
    let v = vec![SocketFilter::new(OP_LD_ABS_B, 0, 0, offset)];
    assert(v@ =~= seq![spec_load(OP_LD_ABS_B, offset)]);
    v
}

/// The fragment that loads the two octets at `offset` into the accumulator.
pub fn load_u16_at(offset: u32) -> (r: Vec<SocketFilter>)
    ensures
        r@ == seq![spec_load(OP_LD_ABS_H, offset)],
{
    let v = vec![SocketFilter::new(OP_LD_ABS_H, 0, 0, offset)];
    assert(v@ =~= seq![spec_load(OP_LD_ABS_H, offset)]);
    v
}

/// The fragment that loads the four octets at `offset` into the accumulator.
pub fn load_u32_at(offset: u32) -> (r: Vec<SocketFilter>)
    ensures
        r@ == seq![spec_load(OP_LD_ABS_W, offset)],
{
    let v = vec![SocketFilter::new(OP_LD_ABS_W, 0, 0, offset)];
    assert(v@ =~= seq![spec_load(OP_LD_ABS_W, offset)]);
    v
}

/// A classic program as `setsockopt` takes it: the kernel's `sock_fprog`, with the
/// instruction array held by value.
#[derive(Debug, Clone)]
pub struct SocketFilterProgram {
    len: u16,
    filter: Vec<SocketFilter>,
}

impl SocketFilterProgram {
    /// The instructions, in execution order.
    pub closed spec fn view(&self) -> Seq<SocketFilter> {
        self.filter@
    }

    /// The instruction count as the kernel is told it.
    pub closed spec fn spec_len(&self) -> u16 {
        self.len
    }

    /// The count is the number of instructions held.
    pub open spec fn wf(&self) -> bool {
        self.spec_len() == self@.len()
    }

    /// Wraps the instructions `v`.
    pub fn from_vector(v: Vec<SocketFilter>) -> (r: Self)
        requires
            v@.len() <= u16::MAX,
        ensures
            r@ == v@,
            r.wf(),
    {
        let len = v.len() as u16;
        SocketFilterProgram { len, filter: v }
    }

    /// The instruction count.
    pub fn len(&self) -> (n: u16)
        ensures
            n == self.spec_len(),
    {
        self.len
    }

    /// The instructions.
    pub fn instructions(&self) -> (r: &Vec<SocketFilter>)
        ensures
            r@ == self@,
    {
        &self.filter
    }
}

} // verus!
