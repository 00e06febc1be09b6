//! What an extended program does to a packet, and what a predicate says of one.
//!
//! The model follows the registers that a socket filter depends on: R0, which is unset
//! on entry and which `exit` returns, and R6, which packet loads read the socket buffer
//! from. A run that reads either before it was written ends without a verdict, as the
//! kernel would refuse such a program.

use vstd::prelude::*;
use crate::backend::Extended;
use crate::ebpf::{
    Instruction, Operand, Register, OP_EXIT, OP_JA, OP_LDX_MEM_W, OP_LD_ABS_B, OP_LD_ABS_H,
    OP_LD_ABS_W, OP_MOV64_K, OP_MOV64_X,
};
use crate::semantics::{after, spell, spelled, Exec};
use crate::predicate::{terminals, truth, ConditionView, Tree};

verus! {

/// The run that ends without a verdict.
pub open spec fn stuck() -> Exec {
    Exec { verdict: None, loads: Seq::empty() }
}

/// The number of octets that a packet load with opcode `code` reads, 0 for any other
/// opcode.
pub open spec fn width(code: u8) -> int {
    if code == OP_LD_ABS_W {
        4
    } else if code == OP_LD_ABS_H {
        2
    } else if code == OP_LD_ABS_B {
        1
    } else {
        0
    }
}

/// The instruction is a load of one, two or four octets from the packet.
pub open spec fn is_load(i: Instruction) -> bool {
    width(i.code) > 0
}

/// The load `i` reads inside the packet.
pub open spec fn in_bounds(i: Instruction, packet: Seq<u8>) -> bool {
    0 <= i.imm && i.imm + width(i.code) <= packet.len()
}

/// What the load `i` leaves in R0.
pub open spec fn loaded(i: Instruction, packet: Seq<u8>) -> u64 {
    spelled(packet, i.imm as int, width(i.code)) as u64
}

/// The immediate as the 64-bit register value it is compared with or copied as.
pub open spec fn extended(imm: i32) -> u64 {
    if imm < 0 {
        (imm + 0x1_0000_0000_0000_0000) as u64
    } else {
        imm as u64
    }
}

/// The register value read as a signed number.
pub open spec fn signed(v: u64) -> int {
    if v >= 0x8000_0000_0000_0000 {
        v - 0x1_0000_0000_0000_0000
    } else {
        v as int
    }
}

/// The opcode is that of a jump on a comparison with the immediate.
pub open spec fn is_conditional(code: u8) -> bool {
    code == 0x15 || code == 0x25 || code == 0x35 || code == 0x45 || code == 0x55 || code == 0x65
        || code == 0x75 || code == 0xa5 || code == 0xb5 || code == 0xc5 || code == 0xd5
}

/// Whether the jump `code` is taken on register value `v` and immediate `imm`. The
/// opcode of the unconditional jump counts as a comparison that always holds.
pub open spec fn taken(code: u8, v: u64, imm: i32) -> bool {
    let k = extended(imm);
    if code == 0x15 {
        v == k
    } else if code == 0x25 {
        v > k
    } else if code == 0x35 {
        v >= k
    } else if code == 0x45 {
        v & k != 0
    } else if code == 0x55 {
        v != k
    } else if code == 0x65 {
        signed(v) > imm
    } else if code == 0x75 {
        signed(v) >= imm
    } else if code == 0xa5 {
        v < k
    } else if code == 0xb5 {
        v <= k
    } else if code == 0xc5 {
        signed(v) < imm
    } else if code == 0xd5 {
        signed(v) <= imm
    } else {
        true
    }
}

/// Runs `program` on `packet` from instruction `pc` on. `r0` is what R0 holds, if it
/// was written; `r6` says whether R6 holds the socket buffer.
///
/// The model covers what the compiler emits: the copy of the context to R6, packet loads
/// into R0, the load of the packet's length into R0, a constant into R0, forward jumps,
/// comparisons of R0 with an immediate, and `exit`. A load that reads beyond the packet
/// ends the run with 0, as the kernel does.
pub open spec fn run(
    program: Seq<Instruction>,
    packet: Seq<u8>,
    pc: int,
    r0: Option<u64>,
    r6: bool,
) -> Exec
    decreases
        (if pc <= program.len() {
            program.len() - pc
        } else {
            0
        }),
{
    if pc < 0 || pc >= program.len() {
        stuck()
    } else {
        let i = program[pc];
        if i.code == OP_EXIT {
            match r0 {
                Some(v) => Exec { verdict: Some((v % 0x1_0000_0000) as u32), loads: Seq::empty() },
                None => stuck(),
            }
        } else if i.code == OP_MOV64_X && i.regs == 0x61 {
            run(program, packet, pc + 1, r0, true)
        } else if i.code == OP_MOV64_K && i.regs == 0x00 {
            run(program, packet, pc + 1, Some(extended(i.imm)), r6)
        } else if i.code == OP_LDX_MEM_W && i.regs == 0x06 && i.off == 0 {
            if r6 {
                run(program, packet, pc + 1, Some(packet.len() as u64), r6)
            } else {
                stuck()
            }
        } else if is_load(i) {
            if !r6 {
                stuck()
            } else if in_bounds(i, packet) {
                after(
                    seq![i.imm as int],
                    run(program, packet, pc + 1, Some(loaded(i, packet)), r6),
                )
            } else {
                Exec { verdict: Some(0), loads: seq![i.imm as int] }
            }
        } else if i.code == OP_JA {
            if i.off < 0 {
                stuck()
            } else {
                run(program, packet, pc + 1 + i.off, r0, r6)
            }
        } else if is_conditional(i.code) && i.regs == 0x00 {
            if i.off < 0 {
                stuck()
            } else {
                match r0 {
                    None => stuck(),
                    Some(v) => if taken(i.code, v, i.imm) {
                        run(program, packet, pc + 1 + i.off, r0, r6)
                    } else {
                        run(program, packet, pc + 1, r0, r6)
                    },
                }
            }
        } else {
            stuck()
        }
    }
}

/// What evaluating a predicate, or a part of one, on a packet comes to.
pub struct Eval {
    /// The truth value, or `None` where a load read beyond the packet.
    pub result: Option<bool>,
    /// The offsets of the packet loads that ran, in order.
    pub loads: Seq<int>,
    /// What R0 holds afterwards, if it was written.
    pub r0: Option<u64>,
}

/// Runs the loads `computation`, given in emission order, so last one first.
pub open spec fn eval_loads(computation: Seq<Instruction>, packet: Seq<u8>, r0: Option<u64>)
    -> Eval
    decreases computation.len(),
{
    if computation.len() == 0 {
        Eval { result: Some(true), loads: Seq::empty(), r0 }
    } else {
        let i = computation.last();
        if in_bounds(i, packet) {
            let rest = eval_loads(computation.drop_last(), packet, Some(loaded(i, packet)));
            Eval { result: rest.result, loads: seq![i.imm as int] + rest.loads, r0: rest.r0 }
        } else {
            Eval { result: None, loads: seq![i.imm as int], r0 }
        }
    }
}

/// The condition is one this model gives a meaning: it loads from the packet, at least
/// once and nothing else, and compares R0 with an immediate.
pub open spec fn straight(c: ConditionView<Extended>) -> bool {
    &&& c.computation.len() > 0
    &&& forall|j: int| 0 <= j < c.computation.len() ==> is_load(#[trigger] c.computation[j])
    &&& c.operand matches Operand::RegAndImm(reg, _) && reg == Register::Ret
}

/// Every condition of `t` is [`straight`].
pub open spec fn well_formed(t: Tree<Extended>) -> bool {
    forall|c: ConditionView<Extended>| #[trigger] terminals(t).contains(c) ==> straight(c)
}

/// The immediate that the condition compares with.
pub open spec fn immediate(c: ConditionView<Extended>) -> i32 {
    match c.operand {
        Operand::RegAndImm(_, imm) => imm,
        Operand::DstAndSrc(_, _) => 0,
    }
}

/// Evaluates the condition `c`: its loads, then its comparison.
pub open spec fn eval_condition(c: ConditionView<Extended>, packet: Seq<u8>, r0: Option<u64>)
    -> Eval {
    let l = eval_loads(c.computation, packet, r0);
    if l.result is None {
        l
    } else {
        Eval {
            result: Some(taken(c.comparison.spec_opcode_imm(), l.r0->Some_0, immediate(c))),
            loads: l.loads,
            r0: l.r0,
        }
    }
}

/// Evaluates `t` on `packet` from left to right. The right side of an AND is evaluated
/// only where the left side holds, that of an OR only where it does not; a load beyond the
/// packet ends the evaluation.
pub open spec fn eval(t: Tree<Extended>, packet: Seq<u8>, r0: Option<u64>) -> Eval
    decreases t,
{
    match t {
        Tree::Terminal(c) => eval_condition(c, packet, r0),
        Tree::Const(b) => Eval { result: Some(b), loads: Seq::empty(), r0 },
        Tree::Not(x) => {
            let e = eval(*x, packet, r0);
            Eval {
                result: match e.result {
                    Some(b) => Some(!b),
                    None => None,
                },
                loads: e.loads,
                r0: e.r0,
            }
        },
        Tree::And(x, y) => {
            let e = eval(*x, packet, r0);
            if e.result == Some(true) {
                let f = eval(*y, packet, e.r0);
                Eval { result: f.result, loads: e.loads + f.loads, r0: f.r0 }
            } else {
                e
            }
        },
        Tree::Or(x, y) => {
            let e = eval(*x, packet, r0);
            if e.result == Some(false) {
                let f = eval(*y, packet, e.r0);
                Eval { result: f.result, loads: e.loads + f.loads, r0: f.r0 }
            } else {
                e
            }
        },
    }
}

/// The run that an evaluation stands for: the whole packet where the predicate holds,
/// nothing where it does not or where a load read beyond the packet.
pub open spec fn outcome(e: Eval, packet: Seq<u8>) -> Exec {
    Exec {
        verdict: Some(
            if e.result == Some(true) {
                packet.len() as u32
            } else {
                0u32
            },
        ),
        loads: e.loads,
    }
}

/// Every load of `c` reads inside the packet.
pub open spec fn loads_within(c: ConditionView<Extended>, packet: Seq<u8>) -> bool {
    forall|j: int| 0 <= j < c.computation.len() ==> in_bounds(#[trigger] c.computation[j], packet)
}

/// Every load of every condition of `t` reads inside the packet.
pub open spec fn within(t: Tree<Extended>, packet: Seq<u8>) -> bool {
    forall|c: ConditionView<Extended>| #[trigger]
        terminals(t).contains(c) ==> loads_within(c, packet)
}

/// Whether `c` holds of a packet that its loads read inside of: its comparison, between
/// what the load that runs last reads and its immediate.
pub open spec fn condition_holds(c: ConditionView<Extended>, packet: Seq<u8>) -> bool {
    taken(c.comparison.spec_opcode_imm(), loaded(c.computation.first(), packet), immediate(c))
}

/// The conditions that hold of `packet`.
pub open spec fn holds_on(packet: Seq<u8>) -> spec_fn(ConditionView<Extended>) -> bool {
    |c: ConditionView<Extended>| condition_holds(c, packet)
}

/// Whether `t` holds of `packet`.
pub open spec fn satisfies(t: Tree<Extended>, packet: Seq<u8>) -> bool {
    truth(t, holds_on(packet))
}

/// Every way through the program from `pc` on, whichever branch each jump takes, keeps
/// the discipline of the registers and comes to an `exit`: every jump goes forward to an
/// instruction of the program, R6 holds the socket buffer before anything is loaded
/// through it, and R0 was written before it is compared or returned. `r0` and `r6` say
/// whether the two were written before `pc`.
pub open spec fn returns_from(program: Seq<Instruction>, pc: int, r0: bool, r6: bool) -> bool
    decreases
        (if pc <= program.len() {
            program.len() - pc
        } else {
            0
        }),
{
    if pc < 0 || pc >= program.len() {
        false
    } else {
        let i = program[pc];
        if i.code == OP_EXIT {
            r0
        } else if i.code == OP_MOV64_X && i.regs == 0x61 {
            returns_from(program, pc + 1, r0, true)
        } else if i.code == OP_MOV64_K && i.regs == 0x00 {
            returns_from(program, pc + 1, true, r6)
        } else if (i.code == OP_LDX_MEM_W && i.regs == 0x06 && i.off == 0) || is_load(i) {
            r6 && returns_from(program, pc + 1, true, r6)
        } else if i.code == OP_JA {
            i.off >= 0 && returns_from(program, pc + 1 + i.off, r0, r6)
        } else if is_conditional(i.code) && i.regs == 0x00 {
            &&& r0
            &&& i.off >= 0
            &&& returns_from(program, pc + 1 + i.off, r0, r6)
            &&& returns_from(program, pc + 1, r0, r6)
        } else {
            false
        }
    }
}

/// The immediate as a 64-bit register value.
fn extend(imm: i32) -> (r: u64)
    ensures
        r == extended(imm),
{
    if imm < 0 {
        let below: i64 = -(imm as i64) - 1;
        u64::MAX - (below as u64)
    } else {
        imm as u64
    }
}

/// Whether the jump `code` is taken on register value `v` and immediate `imm`.
fn decide(code: u8, v: u64, imm: i32) -> (r: bool)
    requires
        is_conditional(code),
    ensures
        r == taken(code, v, imm),
{
    let k = extend(imm);
    let s: i128 = if v >= 0x8000_0000_0000_0000 {
        v as i128 - 0x1_0000_0000_0000_0000
    } else {
        v as i128
    };
    if code == 0x15 {
        v == k
    } else if code == 0x25 {
        v > k
    } else if code == 0x35 {
        v >= k
    } else if code == 0x45 {
        v & k != 0
    } else if code == 0x55 {
        v != k
    } else if code == 0x65 {
        s > imm as i128
    } else if code == 0x75 {
        s >= imm as i128
    } else if code == 0xa5 {
        v < k
    } else if code == 0xb5 {
        v <= k
    } else if code == 0xc5 {
        s < imm as i128
    } else {
        s <= imm as i128
    }
}

/// Runs `program` on `packet` from its first instruction on with no register written, as
/// [`run`] does, and gives the value it returns.
pub fn execute(program: &Vec<Instruction>, packet: &Vec<u8>) -> (r: Option<u32>)
    requires
        packet@.len() <= u32::MAX,
    ensures
        r == run(program@, packet@, 0, None, false).verdict,
{
    let mut pc: usize = 0;
    let mut r0: Option<u64> = None;
    let mut r6: bool = false;
    while pc < program.len()
        invariant
            packet@.len() <= u32::MAX,
            run(program@, packet@, pc as int, r0, r6).verdict == run(
                program@,
                packet@,
                0,
                None,
                false,
            ).verdict,
        decreases program@.len() - pc,
    {
        let i = program[pc];
        let rest = program.len() - pc - 1;
        let size: usize = if i.code == OP_LD_ABS_W {
            4
        } else if i.code == OP_LD_ABS_H {
            2
        } else if i.code == OP_LD_ABS_B {
            1
        } else {
            0
        };
        let conditional = i.code == 0x15 || i.code == 0x25 || i.code == 0x35 || i.code == 0x45
            || i.code == 0x55 || i.code == 0x65 || i.code == 0x75 || i.code == 0xa5 || i.code
            == 0xb5 || i.code == 0xc5 || i.code == 0xd5;
        if i.code == OP_EXIT {
            return match r0 {
                Some(v) => Some((v % 0x1_0000_0000) as u32),
                None => None,
            };
        } else if i.code == OP_MOV64_X && i.regs == 0x61 {
            r6 = true;
            pc = pc + 1;
        } else if i.code == OP_MOV64_K && i.regs == 0x00 {
            r0 = Some(extend(i.imm));
            pc = pc + 1;
        } else if i.code == OP_LDX_MEM_W && i.regs == 0x06 && i.off == 0 {
            if !r6 {
                return None;
            }
            r0 = Some(packet.len() as u64);
            pc = pc + 1;
        } else if size > 0 {
            if !r6 {
                return None;
            }
            if i.imm >= 0 && packet.len() >= size && i.imm as u64 <= (packet.len() - size) as u64 {
                r0 = Some(spell(packet, i.imm as usize, size) as u64);
                pc = pc + 1;
            } else {
                return Some(0);
            }
        } else if i.code == OP_JA {
            if i.off < 0 {
                return None;
            }
            if i.off as u64 >= rest as u64 {
                assert(run(program@, packet@, pc + 1 + i.off, r0, r6).verdict is None);
                return None;
            }
            pc = pc + 1 + i.off as usize;
        } else if conditional && i.regs == 0x00 {
            if i.off < 0 {
                return None;
            }
            match r0 {
                None => {
                    return None;
                },
                Some(v) => {
                    if decide(i.code, v, i.imm) {
                        if i.off as u64 >= rest as u64 {
                            assert(run(program@, packet@, pc + 1 + i.off, r0, r6).verdict is None);
                            return None;
                        }
                        pc = pc + 1 + i.off as usize;
                    } else {
                        pc = pc + 1;
                    }
                },
            }
        } else {
            return None;
        }
    }
    None
}

} // verus!
