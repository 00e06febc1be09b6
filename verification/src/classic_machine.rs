//! What a classic program does to a packet, and what a predicate says of one: the two
//! sides that the compiler has to keep equal.

use vstd::prelude::*;
use crate::backend::Classic;
use crate::cbpf::{
    Comparison, SocketFilter, OP_JA, OP_LD_ABS_B, OP_LD_ABS_H, OP_LD_ABS_W, OP_LD_LEN, OP_RET_A, OP_RET_K,
};
use crate::predicate::{terminals, truth, ConditionView, Tree};
use crate::semantics::{after, spell, spelled, Exec};

verus! {

/// The number of octets that a packet load with opcode `code` reads, 0 for any other
/// opcode.
pub open spec fn width(code: u16) -> int {
    if code == OP_LD_ABS_W {
        4
    } else if code == OP_LD_ABS_H {
        2
    } else if code == OP_LD_ABS_B {
        1
    } else {
        0
    }
}

/// The instruction is a load of one, two or four octets from the packet.
pub open spec fn is_load(i: SocketFilter) -> bool {
    width(i.code) > 0
}

/// The load `i` reads inside the packet.
pub open spec fn in_bounds(i: SocketFilter, packet: Seq<u8>) -> bool {
    i.k + width(i.code) <= packet.len()
}

/// What the load `i` leaves in the accumulator.
pub open spec fn loaded(i: SocketFilter, packet: Seq<u8>) -> u32 {
    spelled(packet, i.k as int, width(i.code)) as u32
}

/// The opcode is that of a jump on a comparison with the immediate.
pub open spec fn is_conditional(code: u16) -> bool {
    code == 0x15 || code == 0x25 || code == 0x35 || code == 0x45
}

/// Whether the conditional jump `code` takes its true branch on accumulator `a` and
/// immediate `k`.
pub open spec fn taken(code: u16, a: u32, k: u32) -> bool {
    if code == 0x15 {
        a == k
    } else if code == 0x25 {
        a > k
    } else if code == 0x35 {
        a >= k
    } else {
        a & k != 0
    }
}

/// Runs `program` on `packet` from instruction `pc` on with `a` in the accumulator.
///
/// The model covers packet loads, the load of the packet's length, jumps and returns. A
/// load that reads beyond the packet ends the run with 0, as the kernel does.
pub open spec fn run(program: Seq<SocketFilter>, packet: Seq<u8>, pc: int, a: u32) -> Exec
    decreases
        (if pc <= program.len() {
            program.len() - pc
        } else {
            0
        }),
{
    if pc < 0 || pc >= program.len() {
        Exec { verdict: None, loads: Seq::empty() }
    } else {
        let i = program[pc];
        if i.code == OP_RET_K {
            Exec { verdict: Some(i.k), loads: Seq::empty() }
        } else if i.code == OP_RET_A {
            Exec { verdict: Some(a), loads: Seq::empty() }
        } else if i.code == OP_LD_LEN {
            run(program, packet, pc + 1, packet.len() as u32)
        } else if is_load(i) {
            if in_bounds(i, packet) {
                after(seq![i.k as int], run(program, packet, pc + 1, loaded(i, packet)))
            } else {
                Exec { verdict: Some(0), loads: seq![i.k as int] }
            }
        } else if i.code == OP_JA {
            run(program, packet, pc + 1 + i.k, a)
        } else if is_conditional(i.code) {
            if taken(i.code, a, i.k) {
                run(program, packet, pc + 1 + i.jt, a)
            } else {
                run(program, packet, pc + 1 + i.jf, a)
            }
        } else {
            Exec { verdict: None, loads: Seq::empty() }
        }
    }
}

/// What evaluating a predicate, or a part of one, on a packet comes to.
pub struct Eval {
    /// The truth value, or `None` where a load read beyond the packet.
    pub result: Option<bool>,
    /// The offsets of the packet loads that ran, in order.
    pub loads: Seq<int>,
    /// What the last load left in the accumulator.
    pub acc: u32,
}

/// Runs the loads `computation`, given in emission order, so last one first.
pub open spec fn eval_loads(computation: Seq<SocketFilter>, packet: Seq<u8>, a: u32) -> Eval
    decreases computation.len(),
{
    if computation.len() == 0 {
        Eval { result: Some(true), loads: Seq::empty(), acc: a }
    } else {
        let i = computation.last();
        if in_bounds(i, packet) {
            let rest = eval_loads(computation.drop_last(), packet, loaded(i, packet));
            Eval { result: rest.result, loads: seq![i.k as int] + rest.loads, acc: rest.acc }
        } else {
            Eval { result: None, loads: seq![i.k as int], acc: a }
        }
    }
}

/// The condition is one this model gives a meaning: it loads from the packet, at least
/// once and nothing else, and its comparison is a test.
pub open spec fn straight(c: ConditionView<Classic>) -> bool {
    &&& c.computation.len() > 0
    &&& forall|j: int| 0 <= j < c.computation.len() ==> is_load(#[trigger] c.computation[j])
    &&& c.comparison != Comparison::Always
}

/// Every condition of `t` is [`straight`].
pub open spec fn well_formed(t: Tree<Classic>) -> bool {
    forall|c: ConditionView<Classic>| #[trigger] terminals(t).contains(c) ==> straight(c)
}

/// Evaluates the condition `c`: its loads, then its comparison.
pub open spec fn eval_condition(c: ConditionView<Classic>, packet: Seq<u8>, a: u32) -> Eval {
    let l = eval_loads(c.computation, packet, a);
    if l.result is None {
        l
    } else {
        Eval {
            result: Some(taken(c.comparison.spec_opcode(), l.acc, c.operand)),
            loads: l.loads,
            acc: l.acc,
        }
    }
}

/// Evaluates `t` on `packet` from left to right. The right side of an AND is evaluated
/// only where the left side holds, that of an OR only where it does not; a load beyond the
/// packet ends the evaluation.
pub open spec fn eval(t: Tree<Classic>, packet: Seq<u8>, a: u32) -> Eval
    decreases t,
{
    match t {
        Tree::Terminal(c) => eval_condition(c, packet, a),
        Tree::Const(b) => Eval { result: Some(b), loads: Seq::empty(), acc: a },
        Tree::Not(x) => {
            let e = eval(*x, packet, a);
            Eval {
                result: match e.result {
                    Some(b) => Some(!b),
                    None => None,
                },
                loads: e.loads,
                acc: e.acc,
            }
        },
        Tree::And(x, y) => {
            let e = eval(*x, packet, a);
            if e.result == Some(true) {
                let f = eval(*y, packet, e.acc);
                Eval { result: f.result, loads: e.loads + f.loads, acc: f.acc }
            } else {
                e
            }
        },
        Tree::Or(x, y) => {
            let e = eval(*x, packet, a);
            if e.result == Some(false) {
                let f = eval(*y, packet, e.acc);
                Eval { result: f.result, loads: e.loads + f.loads, acc: f.acc }
            } else {
                e
            }
        },
    }
}

/// The run that an evaluation stands for: the whole packet where the predicate holds,
/// nothing where it does not or where a load read beyond the packet.
pub open spec fn outcome(e: Eval, packet: Seq<u8>) -> Exec {
    Exec {
        verdict: Some(
            if e.result == Some(true) {
                packet.len() as u32
            } else {
                0u32
            },
        ),
        loads: e.loads,
    }
}

/// Every load of `c` reads inside the packet.
pub open spec fn loads_within(c: ConditionView<Classic>, packet: Seq<u8>) -> bool {
    forall|j: int| 0 <= j < c.computation.len() ==> in_bounds(#[trigger] c.computation[j], packet)
}

/// Every load of every condition of `t` reads inside the packet.
pub open spec fn within(t: Tree<Classic>, packet: Seq<u8>) -> bool {
    forall|c: ConditionView<Classic>| #[trigger]
        terminals(t).contains(c) ==> loads_within(c, packet)
}

/// Whether `c` holds of a packet that its loads read inside of: its comparison, between
/// what the load that runs last reads and its operand.
pub open spec fn condition_holds(c: ConditionView<Classic>, packet: Seq<u8>) -> bool {
    taken(c.comparison.spec_opcode(), loaded(c.computation.first(), packet), c.operand)
}

/// The conditions that hold of `packet`.
pub open spec fn holds_on(packet: Seq<u8>) -> spec_fn(ConditionView<Classic>) -> bool {
    |c: ConditionView<Classic>| condition_holds(c, packet)
}

/// Whether `t` holds of `packet`.
pub open spec fn satisfies(t: Tree<Classic>, packet: Seq<u8>) -> bool {
    truth(t, holds_on(packet))
}

/// The instruction, standing at position `at`, is one this model covers, and whatever it
/// does next is done behind it and not behind `bound`.
pub open spec fn lands_within(i: SocketFilter, at: int, bound: int) -> bool {
    if i.code == OP_RET_K || i.code == OP_RET_A {
        true
    } else if i.code == OP_LD_LEN || is_load(i) {
        at + 1 <= bound
    } else if i.code == OP_JA {
        at + 1 + i.k <= bound
    } else if is_conditional(i.code) {
        at + 1 + i.jt <= bound && at + 1 + i.jf <= bound
    } else {
        false
    }
}

/// The program is one the kernel takes: it ends in a return, and every jump in it goes
/// forward to an instruction of the program.
pub open spec fn accepted(program: Seq<SocketFilter>) -> bool {
    &&& program.len() > 0
    &&& program.last().code == OP_RET_K || program.last().code == OP_RET_A
    &&& forall|i: int|
        0 <= i < program.len() ==> lands_within(#[trigger] program[i], i, program.len() - 1)
}

/// Every way through the program from `pc` on, whichever branch each jump takes, comes to
/// a return.
pub open spec fn returns_from(program: Seq<SocketFilter>, pc: int) -> bool
    decreases
        (if pc <= program.len() {
            program.len() - pc
        } else {
            0
        }),
{
    if pc < 0 || pc >= program.len() {
        false
    } else {
        let i = program[pc];
        if i.code == OP_RET_K || i.code == OP_RET_A {
            true
        } else if i.code == OP_LD_LEN || is_load(i) {
            returns_from(program, pc + 1)
        } else if i.code == OP_JA {
            returns_from(program, pc + 1 + i.k)
        } else if is_conditional(i.code) {
            returns_from(program, pc + 1 + i.jt) && returns_from(program, pc + 1 + i.jf)
        } else {
            false
        }
    }
}

/// Runs `program` on `packet` from its first instruction on, as [`run`] does, and gives
/// the value it returns.
pub fn execute(program: &Vec<SocketFilter>, packet: &Vec<u8>) -> (r: Option<u32>)
    requires
        packet@.len() <= u32::MAX,
    ensures
        r == run(program@, packet@, 0, 0).verdict,
{
    let mut pc: usize = 0;
    let mut a: u32 = 0;
    while pc < program.len()
        invariant
            packet@.len() <= u32::MAX,
            run(program@, packet@, pc as int, a).verdict == run(program@, packet@, 0, 0).verdict,
        decreases program@.len() - pc,
    {
        let i = program[pc];
        let rest = program.len() - pc - 1;
        let size: usize = if i.code == OP_LD_ABS_W {
            4
        } else if i.code == OP_LD_ABS_H {
            2
        } else if i.code == OP_LD_ABS_B {
            1
        } else {
            0
        };
        if i.code == OP_RET_K {
            return Some(i.k);
        } else if i.code == OP_RET_A {
            return Some(a);
        } else if i.code == OP_LD_LEN {
            a = packet.len() as u32;
            pc = pc + 1;
        } else if size > 0 {
            if packet.len() >= size && i.k as u64 <= (packet.len() - size) as u64 {
                a = spell(packet, i.k as usize, size);
                pc = pc + 1;
            } else {
                return Some(0);
            }
        } else if i.code == OP_JA {
            if i.k as u64 >= rest as u64 {
                assert(run(program@, packet@, pc + 1 + i.k, a).verdict is None);
                return None;
            }
            pc = pc + 1 + i.k as usize;
        } else if i.code == 0x15 || i.code == 0x25 || i.code == 0x35 || i.code == 0x45 {
            let holds = if i.code == 0x15 {
                a == i.k
            } else if i.code == 0x25 {
                a > i.k
            } else if i.code == 0x35 {
                a >= i.k
            } else {
                a & i.k != 0
            };
            let distance = if holds {
                i.jt
            } else {
                i.jf
            };
            if distance as u64 >= rest as u64 {
                assert(run(program@, packet@, pc + 1 + distance, a).verdict is None);
                return None;
            }
            pc = pc + 1 + distance as usize;
        } else {
            return None;
        }
    }
    None
}

} // verus!
