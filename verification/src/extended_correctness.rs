//! The extended compiler is right: the program it makes for a predicate does to every
//! packet what the predicate says, and reads no register before it was written.

use vstd::prelude::*;
use crate::backend::{Backend, Extended};
use crate::laws::lemma_fixed_shape;
use crate::ebpf::{spec_jump, Comparison, Instruction, Operand, Register, REACH};
use crate::extended_machine::{
    returns_from, eval, eval_condition, eval_loads, holds_on, immediate, in_bounds, is_conditional, is_load,
    loaded, loads_within, outcome, run, satisfies, straight, taken, well_formed, within, Eval,
};
use crate::semantics::{after, fragment_at, lemma_fragment_split, Exec};
use crate::predicate::{
    const_free, simplifies_to, spec_build, spec_lower, spec_walk, terminals, truth, ConditionView,
    Tree,
};

verus! {

/// Running the reversed loads `computation` does what [`eval_loads`] says and goes on
/// behind them, with R0 written if there was a load.
pub proof fn lemma_loads(
    computation: Seq<Instruction>,
    program: Seq<Instruction>,
    at: int,
    packet: Seq<u8>,
    r0: Option<u64>,
)
    requires
        fragment_at(program, at, computation),
        forall|j: int| 0 <= j < computation.len() ==> is_load(#[trigger] computation[j]),
    ensures
        ({
            let e = eval_loads(computation, packet, r0);
            &&& run(program, packet, at, r0, true) == if e.result is None {
                Exec { verdict: Some(0), loads: e.loads }
            } else {
                after(e.loads, run(program, packet, at + computation.len(), e.r0, true))
            }
            &&& e.result is Some && (computation.len() > 0 || r0 is Some) ==> e.r0 is Some
        }),
    decreases computation.len(),
{
    if computation.len() == 0 {
        let r = run(program, packet, at, r0, true);
        assert(Seq::<int>::empty() + r.loads =~= r.loads);
    } else {
        let i = computation.last();
        assert(computation[computation.len() - 1] == i);
        assert(program[at] == i);
        assert(is_load(i));
        if in_bounds(i, packet) {
            let rest = computation.drop_last();
            let b = Some(loaded(i, packet));
            assert forall|j: int| 0 <= j < rest.len() implies program[at + 1 + rest.len() - 1 - j]
                == #[trigger] rest[j] by {
                assert(computation[j] == rest[j]);
            }
            assert forall|j: int| 0 <= j < rest.len() implies is_load(#[trigger] rest[j]) by {
                assert(computation[j] == rest[j]);
            }
            lemma_loads(rest, program, at + 1, packet, b);
            let e = eval_loads(rest, packet, b);
            assert(run(program, packet, at, r0, true) == after(
                seq![i.imm as int],
                run(program, packet, at + 1, b, true),
            ));
            if e.result is Some {
                let tail = run(program, packet, at + 1 + rest.len(), e.r0, true);
                assert((seq![i.imm as int] + e.loads) + tail.loads =~= seq![i.imm as int] + (
                e.loads + tail.loads));
            }
        }
    }
}

/// Running the reversed jump goes `jt` behind it where the comparison holds of R0 and
/// `jf` where it does not.
pub proof fn lemma_jump(
    comparison: Comparison,
    imm: i32,
    jt: int,
    jf: int,
    program: Seq<Instruction>,
    at: int,
    packet: Seq<u8>,
    v: u64,
)
    requires
        0 <= jt <= REACH,
        0 <= jf <= REACH,
        fragment_at(
            program,
            at,
            spec_jump(comparison, Operand::RegAndImm(Register::Ret, imm), jt, jf),
        ),
    ensures
        run(program, packet, at, Some(v), true) == run(
            program,
            packet,
            at + 2 + (if taken(comparison.spec_opcode_imm(), v, imm) {
                jt
            } else {
                jf
            }),
            Some(v),
            true,
        ),
{
    let j = spec_jump(comparison, Operand::RegAndImm(Register::Ret, imm), jt, jf);
    let code = comparison.spec_opcode_imm();
    assert(is_conditional(code) || code == 0x05);
    assert(program[at] == j[1]);
    assert(program[at + 1] == j[0]);
    assert(run(program, packet, at + 1, Some(v), true) == run(
        program,
        packet,
        at + 2 + jf,
        Some(v),
        true,
    ));
}

/// The conditions of a part are conditions of the whole.
pub proof fn lemma_parts(t: Tree<Extended>, p: spec_fn(ConditionView<Extended>) -> bool)
    requires
        forall|c: ConditionView<Extended>| #[trigger] terminals(t).contains(c) ==> p(c),
    ensures
        t matches Tree::Terminal(c) ==> p(c),
        t matches Tree::Not(x) ==> forall|c: ConditionView<Extended>| #[trigger]
            terminals(*x).contains(c) ==> p(c),
        t matches Tree::And(x, y) ==> (forall|c: ConditionView<Extended>| #[trigger]
            terminals(*x).contains(c) ==> p(c)) && (forall|c: ConditionView<Extended>| #[trigger]
            terminals(*y).contains(c) ==> p(c)),
        t matches Tree::Or(x, y) ==> (forall|c: ConditionView<Extended>| #[trigger]
            terminals(*x).contains(c) ==> p(c)) && (forall|c: ConditionView<Extended>| #[trigger]
            terminals(*y).contains(c) ==> p(c)),
{
    match t {
        Tree::Terminal(c) => {
            assert(terminals(t).contains(c));
        },
        Tree::Const(_) => {},
        Tree::Not(x) => {
            assert forall|c: ConditionView<Extended>| #[trigger]
                terminals(*x).contains(c) implies p(c) by {
                assert(terminals(t).contains(c));
            }
        },
        Tree::And(x, y) => {
            assert forall|c: ConditionView<Extended>| #[trigger]
                terminals(*x).contains(c) implies p(c) by {
                assert(terminals(t).contains(c));
            }
            assert forall|c: ConditionView<Extended>| #[trigger]
                terminals(*y).contains(c) implies p(c) by {
                assert(terminals(t).contains(c));
            }
        },
        Tree::Or(x, y) => {
            assert forall|c: ConditionView<Extended>| #[trigger]
                terminals(*x).contains(c) implies p(c) by {
                assert(terminals(t).contains(c));
            }
            assert forall|c: ConditionView<Extended>| #[trigger]
                terminals(*y).contains(c) implies p(c) by {
                assert(terminals(t).contains(c));
            }
        },
    }
}

/// What running a fragment comes to: the run ends with 0 where the evaluation `e` met
/// a load beyond the packet, and else goes on, after the loads of `e`, at `on_true` or at
/// `on_false`.
pub open spec fn continues(
    e: Eval,
    program: Seq<Instruction>,
    packet: Seq<u8>,
    on_true: int,
    on_false: int,
) -> Exec {
    match e.result {
        None => Exec { verdict: Some(0), loads: e.loads },
        Some(b) => after(
            e.loads,
            run(
                program,
                packet,
                if b {
                    on_true
                } else {
                    on_false
                },
                e.r0,
                true,
            ),
        ),
    }
}

/// Running the lowered condition evaluates it and goes on at the target of its truth
/// value, with R0 written.
pub proof fn lemma_condition(
    c: ConditionView<Extended>,
    jt: int,
    jf: int,
    program: Seq<Instruction>,
    at: int,
    packet: Seq<u8>,
    r0: Option<u64>,
)
    requires
        straight(c),
        0 <= jt <= REACH,
        0 <= jf <= REACH,
        fragment_at(program, at, spec_build::<Extended>(c, jt, jf)),
    ensures
        ({
            let n = spec_build::<Extended>(c, jt, jf).len();
            let e = eval_condition(c, packet, r0);
            &&& run(program, packet, at, r0, true) == continues(
                e,
                program,
                packet,
                at + n + jt,
                at + n + jf,
            )
            &&& e.result is Some ==> e.r0 is Some
        }),
{
    let j = spec_jump(c.comparison, c.operand, jt, jf);
    lemma_fragment_split(program, at, j, c.computation);
    lemma_loads(c.computation, program, at, packet, r0);
    let l = eval_loads(c.computation, packet, r0);
    if l.result is Some {
        lemma_jump(
            c.comparison,
            immediate(c),
            jt,
            jf,
            program,
            at + c.computation.len(),
            packet,
            l.r0->Some_0,
        );
    }
}

/// Running the instructions that [`spec_walk`] gives for `t` evaluates `t` from left to
/// right and goes on `jt` behind them where it holds, `jf` behind them where it does not,
/// with R0 written.
pub proof fn lemma_walk(
    t: Tree<Extended>,
    jt: int,
    jf: int,
    program: Seq<Instruction>,
    at: int,
    packet: Seq<u8>,
    r0: Option<u64>,
)
    requires
        const_free(t),
        well_formed(t),
        0 <= jt <= REACH,
        0 <= jf <= REACH,
        spec_walk::<Extended>(t, jt, jf) is Some,
        fragment_at(program, at, spec_walk::<Extended>(t, jt, jf)->Some_0),
    ensures
        ({
            let n = spec_walk::<Extended>(t, jt, jf)->Some_0.len();
            let e = eval(t, packet, r0);
            &&& run(program, packet, at, r0, true) == continues(
                e,
                program,
                packet,
                at + n + jt,
                at + n + jf,
            )
            &&& e.result is Some ==> e.r0 is Some
        }),
    decreases t,
{
    lemma_parts(t, |c: ConditionView<Extended>| straight(c));
    match t {
        Tree::Terminal(c) => {
            lemma_condition(c, jt, jf, program, at, packet, r0);
        },
        Tree::Const(_) => {},
        Tree::Not(x) => {
            lemma_walk(*x, jf, jt, program, at, packet, r0);
        },
        Tree::And(x, y) => {
            let tail = spec_walk::<Extended>(*y, jt, jf)->Some_0;
            let head = spec_walk::<Extended>(*x, 0, jf + tail.len())->Some_0;
            lemma_fragment_split(program, at, tail, head);
            lemma_walk(*x, 0, jf + tail.len(), program, at, packet, r0);
            let e = eval(*x, packet, r0);
            if e.result == Some(true) {
                lemma_walk(*y, jt, jf, program, at + head.len(), packet, e.r0);
                let f = eval(*y, packet, e.r0);
                match f.result {
                    None => {},
                    Some(b) => {
                        let rest = run(
                            program,
                            packet,
                            at + head.len() + tail.len() + (if b {
                                jt
                            } else {
                                jf
                            }),
                            f.r0,
                            true,
                        );
                        assert((e.loads + f.loads) + rest.loads =~= e.loads + (f.loads
                            + rest.loads));
                    },
                }
            }
        },
        Tree::Or(x, y) => {
            let tail = spec_walk::<Extended>(*y, jt, jf)->Some_0;
            let head = spec_walk::<Extended>(*x, jt + tail.len(), 0)->Some_0;
            lemma_fragment_split(program, at, tail, head);
            lemma_walk(*x, jt + tail.len(), 0, program, at, packet, r0);
            let e = eval(*x, packet, r0);
            if e.result == Some(false) {
                lemma_walk(*y, jt, jf, program, at + head.len(), packet, e.r0);
                let f = eval(*y, packet, e.r0);
                match f.result {
                    None => {},
                    Some(b) => {
                        let rest = run(
                            program,
                            packet,
                            at + head.len() + tail.len() + (if b {
                                jt
                            } else {
                                jf
                            }),
                            f.r0,
                            true,
                        );
                        assert((e.loads + f.loads) + rest.loads =~= e.loads + (f.loads
                            + rest.loads));
                    },
                }
            }
        },
    }
}

/// The program that [`spec_lower`] gives for `t` does to every packet what `t` says of
/// it, whatever the registers hold on entry: it reads what the evaluation of `t` from
/// left to right reads and no more, and returns the packet's length where `t` holds, 0
/// where it does not or where a load read beyond the packet.
///
/// That the run has a verdict at all says that R6 was set before every packet load and R0
/// written before `exit`: the model gives a run that reads either too early none.
pub proof fn theorem_lower(t: Tree<Extended>, packet: Seq<u8>, r0: Option<u64>, r6: bool)
    requires
        t is Const || const_free(t),
        well_formed(t),
        packet.len() <= u32::MAX,
        spec_lower::<Extended>(t) is Some,
    ensures
        run(spec_lower::<Extended>(t)->Some_0, packet, 0, r0, r6) == outcome(
            eval(t, packet, r0),
            packet,
        ),
{
    let body = spec_walk::<Extended>(t, 0, 2)->Some_0;
    let exit = Extended::spec_return_sequence();
    let init = Extended::spec_initialization_sequence();
    let emitted = exit + body + init;
    let program = emitted.reverse();
    assert(spec_lower::<Extended>(t)->Some_0 == program);
    assert(program.len() == emitted.len());
    assert forall|j: int| 0 <= j < emitted.len() implies program[0 + emitted.len() - 1 - j]
        == #[trigger] emitted[j] by {}
    assert(fragment_at(program, 0, (exit + body) + init));
    lemma_fragment_split(program, 0, exit + body, init);
    lemma_fragment_split(program, 1, exit, body);
    assert(program[0] == init[0]);
    let n = body.len() as int;
    assert(program[n + 1] == exit[3]);
    assert(program[n + 2] == exit[2]);
    assert(program[n + 3] == exit[1]);
    assert(program[n + 4] == exit[0]);
    assert(run(program, packet, 0, r0, r6) == run(program, packet, 1, r0, true));
    let whole = Exec { verdict: Some(packet.len() as u32), loads: Seq::<int>::empty() };
    let nothing = Exec { verdict: Some(0u32), loads: Seq::<int>::empty() };
    assert forall|b: Option<u64>| #[trigger] run(program, packet, n + 1, b, true) == whole by {
        let len = Some(packet.len() as u64);
        assert(run(program, packet, n + 1, b, true) == run(program, packet, n + 2, len, true));
        assert(run(program, packet, n + 2, len, true) == run(program, packet, n + 4, len, true));
        assert(run(program, packet, n + 4, len, true) == whole);
    }
    assert forall|b: Option<u64>| #[trigger] run(program, packet, n + 3, b, true) == nothing by {
        assert(run(program, packet, n + 3, b, true) == run(
            program,
            packet,
            n + 4,
            Some(0u64),
            true,
        ));
    }
    match t {
        Tree::Const(value) => {
            assert(program[1] == body[1]);
            assert(program[2] == body[0]);
            if value {
                let len = Some(packet.len() as u64);
                assert(run(program, packet, 1, r0, true) == run(program, packet, 2, len, true));
                assert(run(program, packet, 2, len, true) == whole);
            } else {
                assert(run(program, packet, 1, r0, true) == run(
                    program,
                    packet,
                    2,
                    Some(0u64),
                    true,
                ));
            }
        },
        _ => {
            lemma_walk(t, 0, 2, program, 1, packet, r0);
            let e = eval(t, packet, r0);
            assert(e.loads + Seq::<int>::empty() =~= e.loads);
        },
    }
}

/// Loads that all read inside the packet all run, and leave what the last of them read.
pub proof fn lemma_loads_total(computation: Seq<Instruction>, packet: Seq<u8>, r0: Option<u64>)
    requires
        computation.len() > 0,
        forall|j: int| 0 <= j < computation.len() ==> in_bounds(#[trigger] computation[j], packet),
    ensures
        eval_loads(computation, packet, r0).result == Some(true),
        eval_loads(computation, packet, r0).r0 == Some(loaded(computation.first(), packet)),
    decreases computation.len(),
{
    let i = computation.last();
    assert(computation[computation.len() - 1] == i);
    let rest = computation.drop_last();
    if rest.len() > 0 {
        assert forall|j: int| 0 <= j < rest.len() implies in_bounds(#[trigger] rest[j], packet) by {
            assert(computation[j] == rest[j]);
        }
        assert(rest.first() == computation.first());
        lemma_loads_total(rest, packet, Some(loaded(i, packet)));
    } else {
        assert(computation.first() == i);
        assert(eval_loads(rest, packet, Some(loaded(i, packet))).r0 == Some(loaded(i, packet)));
    }
}

/// On a packet that every load reads inside of, evaluation from left to right comes to
/// the truth value of the predicate.
pub proof fn lemma_eval_total(t: Tree<Extended>, packet: Seq<u8>, r0: Option<u64>)
    requires
        well_formed(t),
        within(t, packet),
    ensures
        eval(t, packet, r0).result == Some(satisfies(t, packet)),
    decreases t,
{
    lemma_parts(t, |c: ConditionView<Extended>| straight(c));
    lemma_parts(t, |c: ConditionView<Extended>| loads_within(c, packet));
    match t {
        Tree::Terminal(c) => {
            lemma_loads_total(c.computation, packet, r0);
        },
        Tree::Const(_) => {},
        Tree::Not(x) => {
            lemma_eval_total(*x, packet, r0);
        },
        Tree::And(x, y) => {
            lemma_eval_total(*x, packet, r0);
            lemma_eval_total(*y, packet, eval(*x, packet, r0).r0);
        },
        Tree::Or(x, y) => {
            lemma_eval_total(*x, packet, r0);
            lemma_eval_total(*y, packet, eval(*x, packet, r0).r0);
        },
    }
}

/// A compiled predicate passes exactly the packets that the predicate holds of: where
/// `program` is the lowering of what simplification made of `p`, and every load of `p`
/// reads inside `packet`, the program returns the packet's length if `p` holds of the
/// packet and 0 if it does not.
pub proof fn theorem_compile(
    p: Tree<Extended>,
    t: Tree<Extended>,
    program: Seq<Instruction>,
    packet: Seq<u8>,
    r0: Option<u64>,
    r6: bool,
)
    requires
        well_formed(p),
        within(p, packet),
        packet.len() <= u32::MAX,
        simplifies_to(p, t),
        spec_lower::<Extended>(t) == Some(program),
    ensures
        run(program, packet, 0, r0, r6).verdict == Some(
            if satisfies(p, packet) {
                packet.len() as u32
            } else {
                0u32
            },
        ),
{
    lemma_fixed_shape(t);
    assert forall|c: ConditionView<Extended>| #[trigger] terminals(t).contains(c) implies straight(
        c,
    ) by {
        assert(terminals(p).contains(c));
    }
    assert forall|c: ConditionView<Extended>| #[trigger]
        terminals(t).contains(c) implies loads_within(c, packet) by {
        assert(terminals(p).contains(c));
    }
    theorem_lower(t, packet, r0, r6);
    lemma_eval_total(t, packet, r0);
    assert(truth(t, holds_on(packet)) == truth(p, holds_on(packet)));
}

/// Every run of a lowered program ends in an `exit` with R0 written, or in a load
/// beyond the packet, whatever the packet and whatever the registers hold on entry.
pub proof fn law_program_returns(t: Tree<Extended>, packet: Seq<u8>, r0: Option<u64>, r6: bool)
    requires
        t is Const || const_free(t),
        well_formed(t),
        packet.len() <= u32::MAX,
        spec_lower::<Extended>(t) is Some,
    ensures
        run(spec_lower::<Extended>(t)->Some_0, packet, 0, r0, r6).verdict is Some,
{
    theorem_lower(t, packet, r0, r6);
}

/// Loads keep the discipline where R6 is set, and leave R0 written.
pub proof fn lemma_loads_return(
    computation: Seq<Instruction>,
    program: Seq<Instruction>,
    at: int,
    r0: bool,
)
    requires
        fragment_at(program, at, computation),
        forall|j: int| 0 <= j < computation.len() ==> is_load(#[trigger] computation[j]),
        returns_from(program, at + computation.len(), r0 || computation.len() > 0, true),
    ensures
        returns_from(program, at, r0, true),
    decreases computation.len(),
{
    if computation.len() > 0 {
        let i = computation.last();
        assert(computation[computation.len() - 1] == i);
        assert(program[at] == i);
        assert(is_load(i));
        let rest = computation.drop_last();
        assert forall|j: int| 0 <= j < rest.len() implies program[at + 1 + rest.len() - 1 - j]
            == #[trigger] rest[j] by {
            assert(computation[j] == rest[j]);
        }
        assert forall|j: int| 0 <= j < rest.len() implies is_load(#[trigger] rest[j]) by {
            assert(computation[j] == rest[j]);
        }
        lemma_loads_return(rest, program, at + 1, true);
    }
}

/// The instructions that [`spec_walk`] gives for `t` keep the discipline of the registers
/// on every way through them, where both targets do.
pub proof fn lemma_walk_returns(
    t: Tree<Extended>,
    jt: int,
    jf: int,
    program: Seq<Instruction>,
    at: int,
    r0: bool,
)
    requires
        const_free(t),
        well_formed(t),
        0 <= jt <= REACH,
        0 <= jf <= REACH,
        spec_walk::<Extended>(t, jt, jf) is Some,
        fragment_at(program, at, spec_walk::<Extended>(t, jt, jf)->Some_0),
        returns_from(program, at + spec_walk::<Extended>(t, jt, jf)->Some_0.len() + jt, true, true),
        returns_from(program, at + spec_walk::<Extended>(t, jt, jf)->Some_0.len() + jf, true, true),
    ensures
        returns_from(program, at, r0, true),
    decreases t,
{
    lemma_parts(t, |c: ConditionView<Extended>| straight(c));
    match t {
        Tree::Terminal(c) => {
            let j = spec_jump(c.comparison, c.operand, jt, jf);
            let m = c.computation.len() as int;
            lemma_fragment_split(program, at, j, c.computation);
            let code = c.comparison.spec_opcode_imm();
            assert(is_conditional(code) || code == 0x05);
            assert(program[at + m] == j[1]);
            assert(program[at + m + 1] == j[0]);
            assert(returns_from(program, at + m + 1, true, true));
            assert(returns_from(program, at + m, true, true));
            lemma_loads_return(c.computation, program, at, r0);
        },
        Tree::Const(_) => {},
        Tree::Not(x) => {
            lemma_walk_returns(*x, jf, jt, program, at, r0);
        },
        Tree::And(x, y) => {
            let tail = spec_walk::<Extended>(*y, jt, jf)->Some_0;
            let head = spec_walk::<Extended>(*x, 0, jf + tail.len())->Some_0;
            lemma_fragment_split(program, at, tail, head);
            lemma_walk_returns(*y, jt, jf, program, at + head.len(), true);
            lemma_walk_returns(*x, 0, jf + tail.len(), program, at, r0);
        },
        Tree::Or(x, y) => {
            let tail = spec_walk::<Extended>(*y, jt, jf)->Some_0;
            let head = spec_walk::<Extended>(*x, jt + tail.len(), 0)->Some_0;
            lemma_fragment_split(program, at, tail, head);
            lemma_walk_returns(*y, jt, jf, program, at + head.len(), true);
            lemma_walk_returns(*x, jt + tail.len(), 0, program, at, r0);
        },
    }
}

/// A lowered program keeps the discipline of the registers on every way through it from
/// its first instruction on, with nothing written on entry: every jump goes forward to an
/// instruction of the program, R6 is set before any packet load, and R0 is written
/// before every `exit`.
pub proof fn theorem_disciplined(t: Tree<Extended>)
    requires
        t is Const || const_free(t),
        well_formed(t),
        spec_lower::<Extended>(t) is Some,
    ensures
        returns_from(spec_lower::<Extended>(t)->Some_0, 0, false, false),
{
    let body = spec_walk::<Extended>(t, 0, 2)->Some_0;
    let exit = Extended::spec_return_sequence();
    let init = Extended::spec_initialization_sequence();
    let emitted = exit + body + init;
    let program = emitted.reverse();
    assert(program.len() == emitted.len());
    assert forall|j: int| 0 <= j < emitted.len() implies program[0 + emitted.len() - 1 - j]
        == #[trigger] emitted[j] by {}
    assert(fragment_at(program, 0, (exit + body) + init));
    lemma_fragment_split(program, 0, exit + body, init);
    lemma_fragment_split(program, 1, exit, body);
    assert(program[0] == init[0]);
    let n = body.len() as int;
    assert(program[n + 1] == exit[3]);
    assert(program[n + 2] == exit[2]);
    assert(program[n + 3] == exit[1]);
    assert(program[n + 4] == exit[0]);
    assert(returns_from(program, n + 4, true, true));
    assert(returns_from(program, n + 3, true, true));
    assert(returns_from(program, n + 2, true, true));
    assert(returns_from(program, n + 1, true, true));
    match t {
        Tree::Const(value) => {
            assert(program[1] == body[1]);
            assert(program[2] == body[0]);
            assert(returns_from(program, 2, true, true));
            assert(returns_from(program, 1, false, true));
        },
        _ => {
            lemma_walk_returns(t, 0, 2, program, 1, false);
        },
    }
}

/// An AND whose left side fails is decided there: the program reads what the left side
/// reads and nothing of the right side.
pub proof fn law_and_short_circuit(
    x: Tree<Extended>,
    y: Tree<Extended>,
    packet: Seq<u8>,
    r0: Option<u64>,
    r6: bool,
)
    requires
        const_free(x) && const_free(y),
        well_formed(x) && well_formed(y),
        packet.len() <= u32::MAX,
        spec_lower::<Extended>(Tree::And(Box::new(x), Box::new(y))) is Some,
        eval(x, packet, r0).result == Some(false),
    ensures
        ({
            let program = spec_lower::<Extended>(Tree::And(Box::new(x), Box::new(y)))->Some_0;
            &&& run(program, packet, 0, r0, r6).loads == eval(x, packet, r0).loads
            &&& run(program, packet, 0, r0, r6).verdict == Some(0u32)
        }),
{
    let t = Tree::And(Box::new(x), Box::new(y));
    assert(const_free(t));
    assert(terminals(t) =~= terminals(x).union(terminals(y)));
    theorem_lower(t, packet, r0, r6);
}

/// An OR whose left side holds is decided there: the program reads what the left side
/// reads and nothing of the right side.
pub proof fn law_or_short_circuit(
    x: Tree<Extended>,
    y: Tree<Extended>,
    packet: Seq<u8>,
    r0: Option<u64>,
    r6: bool,
)
    requires
        const_free(x) && const_free(y),
        well_formed(x) && well_formed(y),
        packet.len() <= u32::MAX,
        spec_lower::<Extended>(Tree::Or(Box::new(x), Box::new(y))) is Some,
        eval(x, packet, r0).result == Some(true),
    ensures
        ({
            let program = spec_lower::<Extended>(Tree::Or(Box::new(x), Box::new(y)))->Some_0;
            &&& run(program, packet, 0, r0, r6).loads == eval(x, packet, r0).loads
            &&& run(program, packet, 0, r0, r6).verdict == Some(packet.len() as u32)
        }),
{
    let t = Tree::Or(Box::new(x), Box::new(y));
    assert(const_free(t));
    assert(terminals(t) =~= terminals(x).union(terminals(y)));
    theorem_lower(t, packet, r0, r6);
}

/// A compiled program keeps the discipline of the registers: simplification leaves a
/// constant or a predicate without one, and brings in no condition, so what
/// [`theorem_disciplined`] asks of the lowered predicate holds of it.
pub proof fn theorem_compile_disciplined(p: Tree<Extended>, t: Tree<Extended>)
    requires
        well_formed(p),
        simplifies_to(p, t),
        spec_lower::<Extended>(t) is Some,
    ensures
        returns_from(spec_lower::<Extended>(t)->Some_0, 0, false, false),
{
    lemma_fixed_shape(t);
    assert forall|c: ConditionView<Extended>| #[trigger] terminals(t).contains(c) implies straight(
        c,
    ) by {
        assert(terminals(p).contains(c));
    }
    theorem_disciplined(t);
}

} // verus!
