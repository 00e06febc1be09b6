use bs_filter::backend::Classic;
use bs_filter::predicate::{Formula, Predicate};

type ClassicPredicate = Predicate<Classic>;

#[test]
fn lib_it_works() {
    assert_eq!(2 + 2, 4);
}

#[test]
fn predicate_simple_and() {
    let true_and_false = ClassicPredicate::const_false() & ClassicPredicate::const_true();
    assert_eq!(true_and_false.satisfiable(), false);
}

#[test]
fn predicate_simple_or() {
    let true_or_false = ClassicPredicate::const_false() | ClassicPredicate::const_true();
    assert_eq!(true_or_false.satisfiable(), true);
}

#[test]
fn simple_not() {
    let not_true = !ClassicPredicate::const_true();
    assert_eq!(not_true.satisfiable(), false);
    let not_false = !ClassicPredicate::const_false();
    assert_eq!(not_false.satisfiable(), true);
}

#[test]
fn complex() {
    let complex = !(ClassicPredicate::const_true() & ClassicPredicate::const_false())
        | ClassicPredicate::const_false();
    assert_eq!(complex.satisfiable(), true);
}

#[test]
fn mod_simple_and() {
    assert_eq!(
        ClassicPredicate::from_inner(Formula::Const(true))
            & ClassicPredicate::from_inner(Formula::Const(false)),
        ClassicPredicate::from_inner(Formula::And(
            Box::new(Formula::Const(true)),
            Box::new(Formula::Const(false))
        ))
    );
}

#[test]
fn mod_simple_or() {
    assert_eq!(
        ClassicPredicate::from_inner(Formula::Const(true))
            | ClassicPredicate::from_inner(Formula::Const(false)),
        ClassicPredicate::from_inner(Formula::Or(
            Box::new(Formula::Const(true)),
            Box::new(Formula::Const(false))
        ))
    );
}

fn t(n: u32) -> ClassicPredicate {
    bs_filter::idiom::offset_equals_u8(n, 1)
}

#[test]
fn constructors_build_the_tree() {
    assert_eq!(
        ClassicPredicate::constant(true),
        ClassicPredicate::from_inner(Formula::Const(true))
    );
    assert_eq!(ClassicPredicate::const_true(), ClassicPredicate::constant(true));
    assert_eq!(ClassicPredicate::const_false(), ClassicPredicate::constant(false));
    assert_eq!(
        (!t(1)).into_inner(),
        Formula::Not(Box::new(t(1).into_inner()))
    );
    assert_eq!(
        (t(1) & t(2)).into_inner(),
        Formula::And(Box::new(t(1).into_inner()), Box::new(t(2).into_inner()))
    );
    assert_eq!(
        (t(1) | t(2)).into_inner(),
        Formula::Or(Box::new(t(1).into_inner()), Box::new(t(2).into_inner()))
    );
}

#[test]
fn simplify_removes_double_negation() {
    assert_eq!((!!t(1)).simplify(), t(1));
}

#[test]
fn simplify_applies_identity_and_domination() {
    assert_eq!((ClassicPredicate::const_true() & t(1)).simplify(), t(1));
    assert_eq!((t(1) & ClassicPredicate::const_true()).simplify(), t(1));
    assert_eq!((ClassicPredicate::const_false() | t(1)).simplify(), t(1));
    assert_eq!((t(1) | ClassicPredicate::const_false()).simplify(), t(1));
    assert_eq!(
        (ClassicPredicate::const_false() & t(1)).simplify(),
        ClassicPredicate::const_false()
    );
    assert_eq!(
        (t(1) | ClassicPredicate::const_true()).simplify(),
        ClassicPredicate::const_true()
    );
    assert_eq!((!ClassicPredicate::const_true()).simplify(), ClassicPredicate::const_false());
}

#[test]
fn simplify_applies_de_morgan_and_idempotence() {
    assert_eq!((!(t(1) | t(2))).simplify(), !t(1) & !t(2));
    assert_eq!((!(t(1) & t(2))).simplify(), !t(1) | !t(2));
    assert_eq!((t(1) & t(1)).simplify(), t(1));
    assert_eq!((t(1) | t(1)).simplify(), t(1));
}

#[test]
fn simplify_distributes_and_over_or() {
    assert_eq!(
        (t(1) & (t(2) | t(3))).simplify(),
        (t(1) & t(2)) | (t(1) & t(3))
    );
}

#[test]
fn simplify_leaves_a_simplified_predicate() {
    let p = (t(1) & !t(2)) | t(3);
    assert_eq!(p.clone().simplify(), p);
}

#[test]
fn simplify_twice_is_simplify_once() {
    let samples = vec![
        !(t(1) | (t(2) & !t(3))),
        (t(1) | t(2)) & (t(3) | t(4)),
        !!(ClassicPredicate::const_true() & t(1)) | !t(1),
        !((t(1) & t(1)) | ClassicPredicate::const_false()),
    ];
    for p in samples {
        let once = p.simplify();
        assert_eq!(once.clone().simplify(), once);
    }
}

#[test]
fn satisfiable_sees_a_contradiction() {
    assert_eq!((t(1) & !t(1)).satisfiable(), false);
    assert_eq!((t(1) & !t(2)).satisfiable(), true);
    assert_eq!((t(1) | !t(1)).satisfiable(), true);
    assert_eq!(t(1).satisfiable(), true);
    assert_eq!((!(t(1) | !t(1))).satisfiable(), false);
}

#[test]
fn walk_of_a_condition_is_its_build() {
    let condition = bs_filter::predicate::Condition::<Classic>::new(
        vec![bs_filter::cbpf::SocketFilter::new(0x28, 0, 0, 12)],
        bs_filter::cbpf::Comparison::Equal,
        0x0806,
    );
    let built = condition.clone().build(3, 300);
    assert_eq!(
        built,
        vec![
            bs_filter::cbpf::SocketFilter::new(0x05, 0, 0, 300),
            bs_filter::cbpf::SocketFilter::new(0x15, 4, 0, 0x0806),
            bs_filter::cbpf::SocketFilter::new(0x28, 0, 0, 12),
        ]
    );
    assert_eq!(ClassicPredicate::terminal(condition).walk(3, 300), Some(built));
}

#[test]
fn condition_gives_back_its_parts() {
    let load = vec![bs_filter::cbpf::SocketFilter::new(0x30, 0, 0, 9)];
    let condition = bs_filter::predicate::Condition::<Classic>::new(
        load.clone(),
        bs_filter::cbpf::Comparison::GreaterThan,
        17,
    );
    assert_eq!(*condition.comparison(), bs_filter::cbpf::Comparison::GreaterThan);
    assert_eq!(*condition.operand(), 17);
    assert_eq!(condition.computation().build(), load);
    let computation = bs_filter::predicate::Computation::<Classic>::new(load.clone());
    assert_eq!(computation.build(), load);
}
