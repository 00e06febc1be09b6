use bs_filter::backend::Classic;
use bs_filter::idiom::offset_equals_u8;
use bs_filter::predicate::{Condition, Formula, Predicate};
use std::collections::{HashMap, HashSet};

type F = Formula<Classic>;

/// No law of the simplifier applies anywhere in `f`.
fn fixed(f: &F) -> bool {
    match f {
        Formula::Terminal(_) | Formula::Const(_) => true,
        Formula::Not(x) => matches!(**x, Formula::Terminal(_)),
        Formula::And(x, y) => {
            !matches!(**x, Formula::Const(_) | Formula::Or(_, _))
                && !matches!(**y, Formula::Const(_) | Formula::Or(_, _))
                && x != y
                && fixed(x)
                && fixed(y)
        }
        Formula::Or(x, y) => {
            !matches!(**x, Formula::Const(_))
                && !matches!(**y, Formula::Const(_))
                && x != y
                && fixed(x)
                && fixed(y)
        }
    }
}

fn truth(f: &F, holds: &HashMap<Condition<Classic>, bool>) -> bool {
    match f {
        Formula::Terminal(c) => holds[c],
        Formula::Const(b) => *b,
        Formula::Not(x) => !truth(x, holds),
        Formula::And(x, y) => truth(x, holds) && truth(y, holds),
        Formula::Or(x, y) => truth(x, holds) || truth(y, holds),
    }
}

fn terminals(f: &F, into: &mut HashSet<Condition<Classic>>) {
    match f {
        Formula::Terminal(c) => {
            into.insert(c.clone());
        }
        Formula::Const(_) => {}
        Formula::Not(x) => terminals(x, into),
        Formula::And(x, y) | Formula::Or(x, y) => {
            terminals(x, into);
            terminals(y, into);
        }
    }
}

struct Dice(u64);

impl Dice {
    fn roll(&mut self, sides: u64) -> u64 {
        self.0 = self.0.wrapping_mul(6364136223846793005).wrapping_add(1442695040888963407);
        (self.0 >> 33) % sides
    }

    fn formula(&mut self, depth: u32) -> F {
        let kind = if depth == 0 { self.roll(2) } else { self.roll(8) };
        match kind {
            0 | 1 => offset_equals_u8::<Classic>(self.roll(4) as u32, 1).into_inner(),
            2 => Formula::Const(self.roll(2) == 1),
            3 | 4 => Formula::Not(Box::new(self.formula(depth - 1))),
            5 | 6 => Formula::And(
                Box::new(self.formula(depth - 1)),
                Box::new(self.formula(depth - 1)),
            ),
            _ => Formula::Or(Box::new(self.formula(depth - 1)), Box::new(self.formula(depth - 1))),
        }
    }
}

#[test]
fn simplified_predicates_are_fixed() {
    let mut dice = Dice(3);
    for _ in 0..500 {
        let f = dice.formula(4);
        let s = Predicate::from_inner(f.clone()).simplify().into_inner();
        assert!(fixed(&s), "{:?} became {:?}", f, s);
    }
}

#[test]
fn fixed_predicates_stay_as_they_are() {
    let mut dice = Dice(5);
    let mut seen = 0;
    while seen < 200 {
        let f = dice.formula(3);
        if !fixed(&f) {
            continue;
        }
        seen += 1;
        assert_eq!(Predicate::from_inner(f.clone()).simplify().into_inner(), f);
    }
}

#[test]
fn simplification_keeps_the_truth_value() {
    let mut dice = Dice(9);
    for _ in 0..300 {
        let f = dice.formula(4);
        let s = Predicate::from_inner(f.clone()).simplify().into_inner();
        let mut all = HashSet::new();
        terminals(&f, &mut all);
        for _ in 0..8 {
            let holds: HashMap<Condition<Classic>, bool> =
                all.iter().map(|c| (c.clone(), dice.roll(2) == 1)).collect();
            assert_eq!(truth(&s, &holds), truth(&f, &holds), "{:?} became {:?}", f, s);
        }
    }
}

#[test]
fn simplification_brings_in_no_condition() {
    let mut dice = Dice(13);
    for _ in 0..300 {
        let f = dice.formula(4);
        let s = Predicate::from_inner(f.clone()).simplify().into_inner();
        let mut before = HashSet::new();
        terminals(&f, &mut before);
        let mut after = HashSet::new();
        terminals(&s, &mut after);
        assert!(after.is_subset(&before));
    }
}

#[test]
fn satisfiable_is_what_some_assignment_shows() {
    let mut dice = Dice(17);
    for _ in 0..300 {
        let f = dice.formula(3);
        let mut all = HashSet::new();
        terminals(&f, &mut all);
        let all: Vec<Condition<Classic>> = all.into_iter().collect();
        let mut some = false;
        for bits in 0..(1u32 << all.len()) {
            let holds: HashMap<Condition<Classic>, bool> = all
                .iter()
                .enumerate()
                .map(|(i, c)| (c.clone(), bits & (1 << i) != 0))
                .collect();
            some = some || truth(&f, &holds);
        }
        assert_eq!(Predicate::from_inner(f.clone()).satisfiable(), some, "{:?}", f);
    }
}
