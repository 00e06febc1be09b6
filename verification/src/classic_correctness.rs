//! The classic compiler is right: the program it makes for a predicate does to every
//! packet what the predicate says, and is one the kernel takes.

use vstd::prelude::*;
use crate::backend::{Backend, Classic};
use crate::cbpf::{spec_jump, Comparison, SocketFilter, OP_JA, OP_LD_LEN, OP_RET_A, OP_RET_K, REACH};
use crate::classic_machine::{
    accepted, eval, eval_condition, eval_loads, holds_on, in_bounds, is_conditional, is_load,
    lands_within, loaded, loads_within, outcome, returns_from, run, satisfies, straight, taken,
    well_formed, within, Eval,
};
use crate::laws::lemma_fixed_shape;
use crate::predicate::{
    const_free, simplifies_to, spec_build, spec_lower, spec_walk, terminals, truth, ConditionView,
    Tree,
};
use crate::semantics::{after, fragment_at, lemma_fragment_split, Exec};

verus! {

/// Running the reversed loads `computation` does what [`eval_loads`] says and goes on
/// behind them.
pub proof fn lemma_loads(
    computation: Seq<SocketFilter>,
    program: Seq<SocketFilter>,
    at: int,
    packet: Seq<u8>,
    a: u32,
)
    requires
        fragment_at(program, at, computation),
        forall|j: int| 0 <= j < computation.len() ==> is_load(#[trigger] computation[j]),
    ensures
        ({
            let e = eval_loads(computation, packet, a);
            run(program, packet, at, a) == if e.result is None {
                Exec { verdict: Some(0), loads: e.loads }
            } else {
                after(e.loads, run(program, packet, at + computation.len(), e.acc))
            }
        }),
    decreases computation.len(),
{
    if computation.len() == 0 {
        let r = run(program, packet, at, a);
        assert(Seq::<int>::empty() + r.loads =~= r.loads);
    } else {
        let i = computation.last();
        assert(computation[computation.len() - 1] == i);
        assert(program[at] == i);
        assert(is_load(i));
        if in_bounds(i, packet) {
            let rest = computation.drop_last();
            let b = loaded(i, packet);
            assert forall|j: int| 0 <= j < rest.len() implies program[at + 1 + rest.len() - 1 - j]
                == #[trigger] rest[j] by {
                assert(computation[j] == rest[j]);
            }
            assert forall|j: int| 0 <= j < rest.len() implies is_load(#[trigger] rest[j]) by {
                assert(computation[j] == rest[j]);
            }
            lemma_loads(rest, program, at + 1, packet, b);
            let e = eval_loads(rest, packet, b);
            assert(run(program, packet, at, a) == after(
                seq![i.k as int],
                run(program, packet, at + 1, b),
            ));
            if e.result is Some {
                let tail = run(program, packet, at + 1 + rest.len(), e.acc);
                assert((seq![i.k as int] + e.loads) + tail.loads =~= seq![i.k as int] + (e.loads
                    + tail.loads));
            }
        }
    }
}

/// Running the reversed jump goes `jt` behind it where the comparison holds and `jf`
/// where it does not, through a trampoline where the distance is long.
pub proof fn lemma_jump(
    comparison: Comparison,
    operand: u32,
    jt: int,
    jf: int,
    program: Seq<SocketFilter>,
    at: int,
    packet: Seq<u8>,
    a: u32,
)
    requires
        comparison != Comparison::Always,
        0 <= jt <= REACH,
        0 <= jf <= REACH,
        fragment_at(program, at, spec_jump(comparison, operand, jt, jf)),
    ensures
        run(program, packet, at, a) == run(
            program,
            packet,
            at + spec_jump(comparison, operand, jt, jf).len() + (if taken(
                comparison.spec_opcode(),
                a,
                operand,
            ) {
                jt
            } else {
                jf
            }),
            a,
        ),
{
    let j = spec_jump(comparison, operand, jt, jf);
    let code = comparison.spec_opcode();
    assert(is_conditional(code));
    if jt <= 254 && jf <= 254 {
        assert(program[at] == j[0]);
    } else if jt <= 254 {
        assert(program[at] == j[1]);
        assert(program[at + 1] == j[0]);
        assert(run(program, packet, at + 1, a) == run(program, packet, at + 2 + jf, a));
    } else if jf <= 254 {
        assert(program[at] == j[1]);
        assert(program[at + 1] == j[0]);
        assert(run(program, packet, at + 1, a) == run(program, packet, at + 2 + jt, a));
    } else {
        assert(program[at] == j[2]);
        assert(program[at + 1] == j[1]);
        assert(program[at + 2] == j[0]);
        assert(run(program, packet, at + 1, a) == run(program, packet, at + 3 + jt, a));
        assert(run(program, packet, at + 2, a) == run(program, packet, at + 3 + jf, a));
    }
}

/// The conditions of a part are conditions of the whole.
pub proof fn lemma_well_formed_parts(t: Tree<Classic>)
    requires
        well_formed(t),
    ensures
        t matches Tree::Terminal(c) ==> straight(c),
        t matches Tree::Not(x) ==> well_formed(*x),
        t matches Tree::And(x, y) ==> well_formed(*x) && well_formed(*y),
        t matches Tree::Or(x, y) ==> well_formed(*x) && well_formed(*y),
{
    match t {
        Tree::Terminal(c) => {
            assert(terminals(t).contains(c));
        },
        Tree::Const(_) => {},
        Tree::Not(x) => {
            assert forall|c: ConditionView<Classic>| #[trigger]
                terminals(*x).contains(c) implies straight(c) by {
                assert(terminals(t).contains(c));
            }
        },
        Tree::And(x, y) => {
            assert forall|c: ConditionView<Classic>| #[trigger]
                terminals(*x).contains(c) implies straight(c) by {
                assert(terminals(t).contains(c));
            }
            assert forall|c: ConditionView<Classic>| #[trigger]
                terminals(*y).contains(c) implies straight(c) by {
                assert(terminals(t).contains(c));
            }
        },
        Tree::Or(x, y) => {
            assert forall|c: ConditionView<Classic>| #[trigger]
                terminals(*x).contains(c) implies straight(c) by {
                assert(terminals(t).contains(c));
            }
            assert forall|c: ConditionView<Classic>| #[trigger]
                terminals(*y).contains(c) implies straight(c) by {
                assert(terminals(t).contains(c));
            }
        },
    }
}

/// What running a fragment comes to: the run ends with 0 where the evaluation `e` met
/// a load beyond the packet, and else goes on, after the loads of `e`, at `on_true` or at
/// `on_false`.
pub open spec fn continues(
    e: Eval,
    program: Seq<SocketFilter>,
    packet: Seq<u8>,
    on_true: int,
    on_false: int,
) -> Exec {
    match e.result {
        None => Exec { verdict: Some(0), loads: e.loads },
        Some(b) => after(
            e.loads,
            run(
                program,
                packet,
                if b {
                    on_true
                } else {
                    on_false
                },
                e.acc,
            ),
        ),
    }
}

/// Running the lowered condition evaluates it and goes on at the target of its truth
/// value.
pub proof fn lemma_condition(
    c: ConditionView<Classic>,
    jt: int,
    jf: int,
    program: Seq<SocketFilter>,
    at: int,
    packet: Seq<u8>,
    a: u32,
)
    requires
        straight(c),
        0 <= jt <= REACH,
        0 <= jf <= REACH,
        fragment_at(program, at, spec_build::<Classic>(c, jt, jf)),
    ensures
        ({
            let n = spec_build::<Classic>(c, jt, jf).len();
            run(program, packet, at, a) == continues(
                eval_condition(c, packet, a),
                program,
                packet,
                at + n + jt,
                at + n + jf,
            )
        }),
{
    let j = spec_jump(c.comparison, c.operand, jt, jf);
    lemma_fragment_split(program, at, j, c.computation);
    lemma_loads(c.computation, program, at, packet, a);
    let l = eval_loads(c.computation, packet, a);
    if l.result is Some {
        lemma_jump(c.comparison, c.operand, jt, jf, program, at + c.computation.len(), packet, l.acc);
    }
}

/// Running the instructions that [`spec_walk`] gives for `t` evaluates `t` from left to
/// right and goes on `jt` behind them where it holds, `jf` behind them where it does not.
pub proof fn lemma_walk(
    t: Tree<Classic>,
    jt: int,
    jf: int,
    program: Seq<SocketFilter>,
    at: int,
    packet: Seq<u8>,
    a: u32,
)
    requires
        const_free(t),
        well_formed(t),
        0 <= jt <= REACH,
        0 <= jf <= REACH,
        spec_walk::<Classic>(t, jt, jf) is Some,
        fragment_at(program, at, spec_walk::<Classic>(t, jt, jf)->Some_0),
    ensures
        ({
            let n = spec_walk::<Classic>(t, jt, jf)->Some_0.len();
            run(program, packet, at, a) == continues(
                eval(t, packet, a),
                program,
                packet,
                at + n + jt,
                at + n + jf,
            )
        }),
    decreases t,
{
    lemma_well_formed_parts(t);
    match t {
        Tree::Terminal(c) => {
            lemma_condition(c, jt, jf, program, at, packet, a);
        },
        Tree::Const(_) => {},
        Tree::Not(x) => {
            lemma_walk(*x, jf, jt, program, at, packet, a);
        },
        Tree::And(x, y) => {
            let tail = spec_walk::<Classic>(*y, jt, jf)->Some_0;
            let head = spec_walk::<Classic>(*x, 0, jf + tail.len())->Some_0;
            lemma_fragment_split(program, at, tail, head);
            lemma_walk(*x, 0, jf + tail.len(), program, at, packet, a);
            let e = eval(*x, packet, a);
            if e.result == Some(true) {
                lemma_walk(*y, jt, jf, program, at + head.len(), packet, e.acc);
                let f = eval(*y, packet, e.acc);
                match f.result {
                    None => {},
                    Some(b) => {
                        let rest = run(
                            program,
                            packet,
                            at + head.len() + tail.len() + (if b {
                                jt
                            } else {
                                jf
                            }),
                            f.acc,
                        );
                        assert((e.loads + f.loads) + rest.loads =~= e.loads + (f.loads
                            + rest.loads));
                    },
                }
            }
        },
        Tree::Or(x, y) => {
            let tail = spec_walk::<Classic>(*y, jt, jf)->Some_0;
            let head = spec_walk::<Classic>(*x, jt + tail.len(), 0)->Some_0;
            lemma_fragment_split(program, at, tail, head);
            lemma_walk(*x, jt + tail.len(), 0, program, at, packet, a);
            let e = eval(*x, packet, a);
            if e.result == Some(false) {
                lemma_walk(*y, jt, jf, program, at + head.len(), packet, e.acc);
                let f = eval(*y, packet, e.acc);
                match f.result {
                    None => {},
                    Some(b) => {
                        let rest = run(
                            program,
                            packet,
                            at + head.len() + tail.len() + (if b {
                                jt
                            } else {
                                jf
                            }),
                            f.acc,
                        );
                        assert((e.loads + f.loads) + rest.loads =~= e.loads + (f.loads
                            + rest.loads));
                    },
                }
            }
        },
    }
}

/// The program that [`spec_lower`] gives for `t` does to every packet what `t` says of
/// it: it reads what the evaluation of `t` from left to right reads and no more, and
/// returns the packet's length where `t` holds, 0 where it does not or where a load
/// read beyond the packet.
///
/// `t` is a constant or holds none, as every simplified predicate is: a constant inside
/// a predicate would be lowered to a return in the middle of the program.
pub proof fn theorem_lower(t: Tree<Classic>, packet: Seq<u8>, a: u32)
    requires
        t is Const || const_free(t),
        well_formed(t),
        packet.len() <= u32::MAX,
        spec_lower::<Classic>(t) is Some,
    ensures
        run(spec_lower::<Classic>(t)->Some_0, packet, 0, a) == outcome(eval(t, packet, a), packet),
{
    let body = spec_walk::<Classic>(t, 0, 2)->Some_0;
    let exit = Classic::spec_return_sequence();
    let emitted = exit + body + Classic::spec_initialization_sequence();
    let program = emitted.reverse();
    assert(emitted =~= exit + body);
    assert(spec_lower::<Classic>(t)->Some_0 == program);
    assert(program.len() == emitted.len());
    assert forall|j: int| 0 <= j < emitted.len() implies program[0 + emitted.len() - 1 - j]
        == #[trigger] emitted[j] by {}
    assert(fragment_at(program, 0, exit + body));
    lemma_fragment_split(program, 0, exit, body);
    let n = body.len() as int;
    assert(program[n] == exit[2]);
    assert(program[n + 1] == exit[1]);
    assert(program[n + 2] == exit[0]);
    assert(forall|b: u32| run(program, packet, n + 1, b).verdict == Some(b));
    assert(forall|b: u32| #[trigger] run(program, packet, n, b) == (Exec {
        verdict: Some(packet.len() as u32),
        loads: Seq::empty(),
    })) by {
        assert forall|b: u32| #[trigger] run(program, packet, n, b) == (Exec {
            verdict: Some(packet.len() as u32),
            loads: Seq::empty(),
        }) by {
            assert(run(program, packet, n, b) == run(program, packet, n + 1, packet.len() as u32));
        }
    }
    assert(forall|b: u32| #[trigger] run(program, packet, n + 2, b) == (Exec {
        verdict: Some(0u32),
        loads: Seq::empty(),
    }));
    match t {
        Tree::Const(value) => {
            if value {
                assert(program[0] == body[1]);
                assert(program[1] == body[0]);
                assert(run(program, packet, 0, a) == run(program, packet, 1, packet.len() as u32));
            } else {
                assert(program[0] == body[0]);
            }
            assert(run(program, packet, 0, a).loads =~= Seq::<int>::empty());
        },
        _ => {
            lemma_walk(t, 0, 2, program, 0, packet, a);
            let e = eval(t, packet, a);
            assert(e.loads + Seq::<int>::empty() =~= e.loads);
        },
    }
}

/// Loads that all read inside the packet all run, and leave what the last of them read.
pub proof fn lemma_loads_total(computation: Seq<SocketFilter>, packet: Seq<u8>, a: u32)
    requires
        computation.len() > 0,
        forall|j: int| 0 <= j < computation.len() ==> in_bounds(#[trigger] computation[j], packet),
    ensures
        eval_loads(computation, packet, a).result == Some(true),
        eval_loads(computation, packet, a).acc == loaded(computation.first(), packet),
    decreases computation.len(),
{
    let i = computation.last();
    assert(computation[computation.len() - 1] == i);
    let rest = computation.drop_last();
    if rest.len() > 0 {
        assert forall|j: int| 0 <= j < rest.len() implies in_bounds(#[trigger] rest[j], packet) by {
            assert(computation[j] == rest[j]);
        }
        assert(rest.first() == computation.first());
        lemma_loads_total(rest, packet, loaded(i, packet));
    } else {
        assert(computation.first() == i);
        assert(eval_loads(rest, packet, loaded(i, packet)).acc == loaded(i, packet));
    }
}

/// The loads of a part are loads of the whole.
pub proof fn lemma_within_parts(t: Tree<Classic>, packet: Seq<u8>)
    requires
        within(t, packet),
    ensures
        t matches Tree::Terminal(c) ==> loads_within(c, packet),
        t matches Tree::Not(x) ==> within(*x, packet),
        t matches Tree::And(x, y) ==> within(*x, packet) && within(*y, packet),
        t matches Tree::Or(x, y) ==> within(*x, packet) && within(*y, packet),
{
    match t {
        Tree::Terminal(c) => {
            assert(terminals(t).contains(c));
        },
        Tree::Const(_) => {},
        Tree::Not(x) => {
            assert forall|c: ConditionView<Classic>| #[trigger]
                terminals(*x).contains(c) implies loads_within(c, packet) by {
                assert(terminals(t).contains(c));
            }
        },
        Tree::And(x, y) => {
            assert forall|c: ConditionView<Classic>| #[trigger]
                terminals(*x).contains(c) implies loads_within(c, packet) by {
                assert(terminals(t).contains(c));
            }
            assert forall|c: ConditionView<Classic>| #[trigger]
                terminals(*y).contains(c) implies loads_within(c, packet) by {
                assert(terminals(t).contains(c));
            }
        },
        Tree::Or(x, y) => {
            assert forall|c: ConditionView<Classic>| #[trigger]
                terminals(*x).contains(c) implies loads_within(c, packet) by {
                assert(terminals(t).contains(c));
            }
            assert forall|c: ConditionView<Classic>| #[trigger]
                terminals(*y).contains(c) implies loads_within(c, packet) by {
                assert(terminals(t).contains(c));
            }
        },
    }
}

/// On a packet that every load reads inside of, evaluation from left to right comes to
/// the truth value of the predicate.
pub proof fn lemma_eval_total(t: Tree<Classic>, packet: Seq<u8>, a: u32)
    requires
        well_formed(t),
        within(t, packet),
    ensures
        eval(t, packet, a).result == Some(satisfies(t, packet)),
    decreases t,
{
    lemma_well_formed_parts(t);
    lemma_within_parts(t, packet);
    match t {
        Tree::Terminal(c) => {
            lemma_loads_total(c.computation, packet, a);
        },
        Tree::Const(_) => {},
        Tree::Not(x) => {
            lemma_eval_total(*x, packet, a);
        },
        Tree::And(x, y) => {
            lemma_eval_total(*x, packet, a);
            lemma_eval_total(*y, packet, eval(*x, packet, a).acc);
        },
        Tree::Or(x, y) => {
            lemma_eval_total(*x, packet, a);
            lemma_eval_total(*y, packet, eval(*x, packet, a).acc);
        },
    }
}

/// A compiled predicate passes exactly the packets that the predicate holds of: where
/// `program` is the lowering of what simplification made of `p`, and every load of `p`
/// reads inside `packet`, the program returns the packet's length if `p` holds of the
/// packet and 0 if it does not.
pub proof fn theorem_compile(
    p: Tree<Classic>,
    t: Tree<Classic>,
    program: Seq<SocketFilter>,
    packet: Seq<u8>,
    a: u32,
)
    requires
        well_formed(p),
        within(p, packet),
        packet.len() <= u32::MAX,
        simplifies_to(p, t),
        spec_lower::<Classic>(t) == Some(program),
    ensures
        run(program, packet, 0, a).verdict == Some(
            if satisfies(p, packet) {
                packet.len() as u32
            } else {
                0u32
            },
        ),
{
    lemma_fixed_shape(t);
    assert forall|c: ConditionView<Classic>| #[trigger] terminals(t).contains(c) implies straight(
        c,
    ) by {
        assert(terminals(p).contains(c));
    }
    assert forall|c: ConditionView<Classic>| #[trigger]
        terminals(t).contains(c) implies loads_within(c, packet) by {
        assert(terminals(p).contains(c));
    }
    theorem_lower(t, packet, a);
    lemma_eval_total(t, packet, a);
    assert(truth(t, holds_on(packet)) == truth(p, holds_on(packet)));
}

/// An AND whose left side fails is decided there: the program reads what the left side
/// reads and nothing of the right side.
pub proof fn law_and_short_circuit(x: Tree<Classic>, y: Tree<Classic>, packet: Seq<u8>, a: u32)
    requires
        const_free(x) && const_free(y),
        well_formed(x) && well_formed(y),
        packet.len() <= u32::MAX,
        spec_lower::<Classic>(Tree::And(Box::new(x), Box::new(y))) is Some,
        eval(x, packet, a).result == Some(false),
    ensures
        ({
            let program = spec_lower::<Classic>(Tree::And(Box::new(x), Box::new(y)))->Some_0;
            &&& run(program, packet, 0, a).loads == eval(x, packet, a).loads
            &&& run(program, packet, 0, a).verdict == Some(0u32)
        }),
{
    let t = Tree::And(Box::new(x), Box::new(y));
    assert(const_free(t));
    assert(terminals(t) =~= terminals(x).union(terminals(y)));
    theorem_lower(t, packet, a);
}

/// An OR whose left side holds is decided there: the program reads what the left side
/// reads and nothing of the right side.
pub proof fn law_or_short_circuit(x: Tree<Classic>, y: Tree<Classic>, packet: Seq<u8>, a: u32)
    requires
        const_free(x) && const_free(y),
        well_formed(x) && well_formed(y),
        packet.len() <= u32::MAX,
        spec_lower::<Classic>(Tree::Or(Box::new(x), Box::new(y))) is Some,
        eval(x, packet, a).result == Some(true),
    ensures
        ({
            let program = spec_lower::<Classic>(Tree::Or(Box::new(x), Box::new(y)))->Some_0;
            &&& run(program, packet, 0, a).loads == eval(x, packet, a).loads
            &&& run(program, packet, 0, a).verdict == Some(packet.len() as u32)
        }),
{
    let t = Tree::Or(Box::new(x), Box::new(y));
    assert(const_free(t));
    assert(terminals(t) =~= terminals(x).union(terminals(y)));
    theorem_lower(t, packet, a);
}

/// Every run of a lowered program ends in a return, whatever the packet.
pub proof fn law_program_returns(t: Tree<Classic>, packet: Seq<u8>, a: u32)
    requires
        t is Const || const_free(t),
        well_formed(t),
        packet.len() <= u32::MAX,
        spec_lower::<Classic>(t) is Some,
    ensures
        run(spec_lower::<Classic>(t)->Some_0, packet, 0, a).verdict is Some,
{
    theorem_lower(t, packet, a);
}

/// The larger of two distances.
pub open spec fn further(jt: int, jf: int) -> int {
    if jt >= jf {
        jt
    } else {
        jf
    }
}

/// Every jump among the instructions that [`spec_walk`] gives for `t` goes forward, and
/// no further than the farther of the two targets.
pub proof fn lemma_walk_lands(
    t: Tree<Classic>,
    jt: int,
    jf: int,
    program: Seq<SocketFilter>,
    at: int,
)
    requires
        well_formed(t),
        0 <= jt <= REACH,
        0 <= jf <= REACH,
        spec_walk::<Classic>(t, jt, jf) is Some,
        fragment_at(program, at, spec_walk::<Classic>(t, jt, jf)->Some_0),
    ensures
        ({
            let n = spec_walk::<Classic>(t, jt, jf)->Some_0.len();
            forall|i: int|
                at <= i < at + n ==> lands_within(#[trigger] program[i], i, at + n + further(jt, jf))
        }),
    decreases t,
{
    lemma_well_formed_parts(t);
    let w = spec_walk::<Classic>(t, jt, jf)->Some_0;
    let n = w.len() as int;
    let bound = at + n + further(jt, jf);
    match t {
        Tree::Terminal(c) => {
            let j = spec_jump(c.comparison, c.operand, jt, jf);
            let m = c.computation.len() as int;
            lemma_fragment_split(program, at, j, c.computation);
            assert(is_conditional(c.comparison.spec_opcode()));
            assert forall|i: int| at <= i < at + n implies lands_within(
                #[trigger] program[i],
                i,
                bound,
            ) by {
                if i < at + m {
                    let k = at + m - 1 - i;
                    assert(program[at + m - 1 - k] == c.computation[k]);
                    assert(is_load(c.computation[k]));
                } else {
                    let k = at + m + j.len() - 1 - i;
                    assert(program[at + m + j.len() - 1 - k] == j[k]);
                }
            }
        },
        Tree::Const(_) => {
            assert forall|i: int| at <= i < at + n implies lands_within(
                #[trigger] program[i],
                i,
                bound,
            ) by {
                let k = at + n - 1 - i;
                assert(program[at + n - 1 - k] == w[k]);
            }
        },
        Tree::Not(x) => {
            lemma_walk_lands(*x, jf, jt, program, at);
        },
        Tree::And(x, y) => {
            let tail = spec_walk::<Classic>(*y, jt, jf)->Some_0;
            let head = spec_walk::<Classic>(*x, 0, jf + tail.len())->Some_0;
            lemma_fragment_split(program, at, tail, head);
            lemma_walk_lands(*x, 0, jf + tail.len(), program, at);
            lemma_walk_lands(*y, jt, jf, program, at + head.len());
            assert forall|i: int| at <= i < at + n implies lands_within(
                #[trigger] program[i],
                i,
                bound,
            ) by {
                if i < at + head.len() {
                    assert(lands_within(
                        program[i],
                        i,
                        at + head.len() + further(0, jf + tail.len()),
                    ));
                } else {
                    assert(lands_within(
                        program[i],
                        i,
                        at + head.len() + tail.len() + further(jt, jf),
                    ));
                }
            }
        },
        Tree::Or(x, y) => {
            let tail = spec_walk::<Classic>(*y, jt, jf)->Some_0;
            let head = spec_walk::<Classic>(*x, jt + tail.len(), 0)->Some_0;
            lemma_fragment_split(program, at, tail, head);
            lemma_walk_lands(*x, jt + tail.len(), 0, program, at);
            lemma_walk_lands(*y, jt, jf, program, at + head.len());
            assert forall|i: int| at <= i < at + n implies lands_within(
                #[trigger] program[i],
                i,
                bound,
            ) by {
                if i < at + head.len() {
                    assert(lands_within(
                        program[i],
                        i,
                        at + head.len() + further(jt + tail.len(), 0),
                    ));
                } else {
                    assert(lands_within(
                        program[i],
                        i,
                        at + head.len() + tail.len() + further(jt, jf),
                    ));
                }
            }
        },
    }
}

/// A lowered program is one the kernel takes: it ends in a return, and every jump in it,
/// whether a packet can lead there or not, goes forward to an instruction of the program.
pub proof fn theorem_accepted(t: Tree<Classic>)
    requires
        well_formed(t),
        spec_lower::<Classic>(t) is Some,
    ensures
        accepted(spec_lower::<Classic>(t)->Some_0),
{
    let body = spec_walk::<Classic>(t, 0, 2)->Some_0;
    let exit = Classic::spec_return_sequence();
    let emitted = exit + body + Classic::spec_initialization_sequence();
    let program = emitted.reverse();
    assert(emitted =~= exit + body);
    assert(program.len() == emitted.len());
    assert forall|j: int| 0 <= j < emitted.len() implies program[0 + emitted.len() - 1 - j]
        == #[trigger] emitted[j] by {}
    assert(fragment_at(program, 0, exit + body));
    lemma_fragment_split(program, 0, exit, body);
    let n = body.len() as int;
    assert(program[n] == exit[2]);
    assert(program[n + 1] == exit[1]);
    assert(program[n + 2] == exit[0]);
    lemma_walk_lands(t, 0, 2, program, 0);
    assert(program.last() == program[n + 2]);
    assert forall|i: int| 0 <= i < program.len() implies lands_within(
        #[trigger] program[i],
        i,
        program.len() - 1,
    ) by {
        if i < n {
            assert(lands_within(program[i], i, 0 + n + further(0, 2)));
        }
    }
}

/// In a program that the kernel takes, every way through comes to a return, whichever
/// branch each jump takes, and so within as many steps as the program has instructions.
pub proof fn law_every_path_returns(program: Seq<SocketFilter>, pc: int)
    requires
        accepted(program),
        0 <= pc < program.len(),
    ensures
        returns_from(program, pc),
    decreases program.len() - pc,
{
    let i = program[pc];
    assert(lands_within(i, pc, program.len() - 1));
    if i.code == OP_RET_K || i.code == OP_RET_A {
    } else if i.code == OP_LD_LEN || is_load(i) {
        law_every_path_returns(program, pc + 1);
    } else if i.code == OP_JA {
        law_every_path_returns(program, pc + 1 + i.k);
    } else {
        law_every_path_returns(program, pc + 1 + i.jt);
        law_every_path_returns(program, pc + 1 + i.jf);
    }
}

/// A compiled program is one the kernel takes: simplification brings in no condition, so
/// what [`theorem_accepted`] asks of the lowered predicate holds of it.
pub proof fn theorem_compile_accepted(p: Tree<Classic>, t: Tree<Classic>)
    requires
        well_formed(p),
        simplifies_to(p, t),
        spec_lower::<Classic>(t) is Some,
    ensures
        accepted(spec_lower::<Classic>(t)->Some_0),
        returns_from(spec_lower::<Classic>(t)->Some_0, 0),
{
    assert forall|c: ConditionView<Classic>| #[trigger] terminals(t).contains(c) implies straight(
        c,
    ) by {
        assert(terminals(p).contains(c));
    }
    theorem_accepted(t);
    law_every_path_returns(spec_lower::<Classic>(t)->Some_0, 0);
}

} // verus!
