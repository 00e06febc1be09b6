//! Predicates over packets: conditions combined with AND, OR and NOT, their
//! simplification and their lowering to a program.

use vstd::prelude::*;
use std::ops::{BitAnd, BitOr, Not};
use vstd::std_specs::ops::{BitAndSpecImpl, BitOrSpecImpl, NotSpecImpl};
use crate::backend::Backend;
use crate::consts::EOVERFLOW;
use crate::filter::Filter;
use crate::system::SystemError;

verus! {

/// What a [`Condition`] stands for.
pub struct ConditionView<K: Backend> {
    /// The instructions that load what is compared, in emission order.
    pub computation: Seq<K::Instruction>,
    pub comparison: K::Comparison,
    pub operand: K::Value,
}

/// What a [`Formula`] stands for.
pub enum Tree<K: Backend> {
    Terminal(ConditionView<K>),
    Const(bool),
    Not(Box<Tree<K>>),
    And(Box<Tree<K>>, Box<Tree<K>>),
    Or(Box<Tree<K>>, Box<Tree<K>>),
}

/// The instructions that load what a condition compares, in emission order.
#[derive(Clone, Debug, Ord, Eq, Hash, PartialEq, PartialOrd, Default)]
pub struct Computation<K: Backend> {
    instructions: Vec<K::Instruction>,
}

impl<K: Backend> View for Computation<K> {
    type V = Seq<K::Instruction>;

    closed spec fn view(&self) -> Seq<K::Instruction> {
        self.instructions@
    }
}

impl<K: Backend> Computation<K> {
    /// The computation made of `instructions`.
    pub fn new(instructions: Vec<K::Instruction>) -> (r: Self)
        ensures
            r@ == instructions@,
    {
        Computation { instructions }
    }

    /// The instructions of the computation.
    pub fn build(self) -> (r: Vec<K::Instruction>)
        ensures
            r@ == self@,
    {
        self.instructions
    }
}

/// The atom of a predicate: load something from the packet and compare it.
#[derive(Clone, Debug, Ord, Eq, Hash, PartialEq, PartialOrd)]
pub struct Condition<K: Backend> {
    computation: Computation<K>,
    comparison: K::Comparison,
    operand: K::Value,
}

impl<K: Backend> View for Condition<K> {
    type V = ConditionView<K>;

    closed spec fn view(&self) -> ConditionView<K> {
        ConditionView {
            computation: self.computation@,
            comparison: self.comparison,
            operand: self.operand,
        }
    }
}

/// The instructions of a condition that goes `jt` ahead where it holds and `jf` ahead
/// where it does not, in emission order: the jump, then the loads.
pub open spec fn spec_build<K: Backend>(c: ConditionView<K>, jt: int, jf: int) -> Seq<
    K::Instruction,
> {
    K::spec_jump(c.comparison, c.operand, jt, jf) + c.computation
}

impl<K: Backend> Condition<K> {
    /// The condition that runs `computation` and then tests `comparison` between what it
    /// loaded and `operand`. `computation` is in emission order, last instruction first.
    pub fn new(computation: Vec<K::Instruction>, comparison: K::Comparison, operand: K::Value) -> (r:
        Self)
        ensures
            r@ == (ConditionView::<K> { computation: computation@, comparison, operand }),
    {
        Condition { computation: Computation::new(computation), comparison, operand }
    }

    /// The instructions that load what is compared.
    pub fn computation(self) -> (r: Computation<K>)
        ensures
            r@ == self@.computation,
    {
        self.computation
    }

    /// The comparison that is tested.
    pub fn comparison(&self) -> (r: &K::Comparison)
        ensures
            *r == self@.comparison,
    {
        &self.comparison
    }

    /// What the loaded value is compared with.
    pub fn operand(&self) -> (r: &K::Value)
        ensures
            *r == self@.operand,
    {
        &self.operand
    }

    /// Lowers the condition to the instructions of [`spec_build`].
    pub fn build(self, jt: usize, jf: usize) -> (r: Vec<K::Instruction>)
        requires
            jt <= K::spec_reach(),
            jf <= K::spec_reach(),
        ensures
            r@ == spec_build(self@, jt as int, jf as int),
    {
        let mut res = K::jump(self.comparison, self.operand, jt, jf);
        let mut computation = self.computation.build();
        res.append(&mut computation);
        res
    }
}

/// A boolean expression over conditions.
#[derive(Debug, Ord, Eq, Hash, PartialEq, PartialOrd)]
pub enum Formula<K: Backend> {
    Terminal(Condition<K>),
    Const(bool),
    Not(Box<Formula<K>>),
    And(Box<Formula<K>>, Box<Formula<K>>),
    Or(Box<Formula<K>>, Box<Formula<K>>),
}

impl<K: Backend> Clone for Formula<K> {
    fn clone(&self) -> (r: Self)
        decreases self,
    {
        match self {
            Formula::Terminal(c) => Formula::Terminal(c.clone()),
            Formula::Const(b) => Formula::Const(*b),
            Formula::Not(x) => Formula::Not(Box::new((**x).clone())),
            Formula::And(x, y) => Formula::And(Box::new((**x).clone()), Box::new((**y).clone())),
            Formula::Or(x, y) => Formula::Or(Box::new((**x).clone()), Box::new((**y).clone())),
        }
    }
}

impl<K: Backend> View for Formula<K> {
    type V = Tree<K>;

    open spec fn view(&self) -> Tree<K>
        decreases self,
    {
        match *self {
            Formula::Terminal(c) => Tree::Terminal(c@),
            Formula::Const(b) => Tree::Const(b),
            Formula::Not(x) => Tree::Not(Box::new((*x)@)),
            Formula::And(x, y) => Tree::And(Box::new((*x)@), Box::new((*y)@)),
            Formula::Or(x, y) => Tree::Or(Box::new((*x)@), Box::new((*y)@)),
        }
    }
}

/// The truth value of `t` where `holds` says which conditions hold.
pub open spec fn truth<K: Backend>(t: Tree<K>, holds: spec_fn(ConditionView<K>) -> bool) -> bool
    decreases t,
{
    match t {
        Tree::Terminal(c) => holds(c),
        Tree::Const(b) => b,
        Tree::Not(x) => !truth(*x, holds),
        Tree::And(x, y) => truth(*x, holds) && truth(*y, holds),
        Tree::Or(x, y) => truth(*x, holds) || truth(*y, holds),
    }
}

/// The conditions that occur in `t`.
pub open spec fn terminals<K: Backend>(t: Tree<K>) -> Set<ConditionView<K>>
    decreases t,
{
    match t {
        Tree::Terminal(c) => set![c],
        Tree::Const(_) => Set::empty(),
        Tree::Not(x) => terminals(*x),
        Tree::And(x, y) => terminals(*x).union(terminals(*y)),
        Tree::Or(x, y) => terminals(*x).union(terminals(*y)),
    }
}

/// No law of the simplifier applies anywhere in `t`: a constant stands only alone, NOT
/// only over a condition, AND never over an OR, and no AND or OR joins two equal sides.
pub open spec fn fixed<K: Backend>(t: Tree<K>) -> bool
    decreases t,
{
    match t {
        Tree::Terminal(_) => true,
        Tree::Const(_) => true,
        Tree::Not(x) => *x is Terminal,
        Tree::And(x, y) => {
            &&& !(*x is Const)
            &&& !(*y is Const)
            &&& !(*x is Or)
            &&& !(*y is Or)
            &&& *x != *y
            &&& fixed(*x)
            &&& fixed(*y)
        },
        Tree::Or(x, y) => {
            &&& !(*x is Const)
            &&& !(*y is Const)
            &&& *x != *y
            &&& fixed(*x)
            &&& fixed(*y)
        },
    }
}

/// A condition told by numbers alone, whatever the backend.
pub struct RawCondition {
    pub computation: Seq<Seq<int>>,
    pub comparison: Seq<int>,
    pub operand: Seq<int>,
}

/// A predicate whose conditions are told by numbers alone.
pub enum RawTree {
    Terminal(RawCondition),
    Const(bool),
    Not(Box<RawTree>),
    And(Box<RawTree>, Box<RawTree>),
    Or(Box<RawTree>, Box<RawTree>),
}

/// The condition `c`, each part by its key.
pub open spec fn raw_condition<K: Backend>(c: ConditionView<K>) -> RawCondition {
    RawCondition {
        computation: Seq::new(
            c.computation.len(),
            |j: int| K::spec_instruction_key(c.computation[j]),
        ),
        comparison: K::spec_comparison_key(c.comparison),
        operand: K::spec_value_key(c.operand),
    }
}

/// The predicate `t`, each condition by its keys.
pub open spec fn raw<K: Backend>(t: Tree<K>) -> RawTree
    decreases t,
{
    match t {
        Tree::Terminal(c) => RawTree::Terminal(raw_condition(c)),
        Tree::Const(b) => RawTree::Const(b),
        Tree::Not(x) => RawTree::Not(Box::new(raw(*x))),
        Tree::And(x, y) => RawTree::And(Box::new(raw(*x)), Box::new(raw(*y))),
        Tree::Or(x, y) => RawTree::Or(Box::new(raw(*x)), Box::new(raw(*y))),
    }
}

/// What `boolean_expression::Expr::simplify_via_laws` makes of an expression.
pub uninterp spec fn simplified(t: RawTree) -> RawTree;

/// The predicate that simplification makes of `t`.
pub open spec fn spec_simplify<K: Backend>(t: Tree<K>) -> Tree<K> {
    choose|r: Tree<K>| raw(r) == simplified(raw(t))
}

/// `r` is what simplification may make of `t`: no law applies to `r`, `r` is `t` itself
/// where none applied to `t`, `r` has the truth value of `t` whatever the conditions
/// mean, and every condition of `r` is one of `t`.
pub open spec fn simplifies_to<K: Backend>(t: Tree<K>, r: Tree<K>) -> bool {
    &&& fixed(r)
    &&& fixed(t) ==> r == t
    &&& forall|holds: spec_fn(ConditionView<K>) -> bool| #[trigger]
        truth(r, holds) == truth(t, holds)
    &&& terminals(r).subset_of(terminals(t))
}

/// No constant occurs in `t`.
pub open spec fn const_free<K: Backend>(t: Tree<K>) -> bool
    decreases t,
{
    match t {
        Tree::Terminal(_) => true,
        Tree::Const(_) => false,
        Tree::Not(x) => const_free(*x),
        Tree::And(x, y) => const_free(*x) && const_free(*y),
        Tree::Or(x, y) => const_free(*x) && const_free(*y),
    }
}

/// The instructions that decide `t`, in emission order, where the PASS target lies `jt`
/// instructions behind them and the DROP target `jf`; `None` where a distance grows
/// beyond the backend's reach.
///
/// The right side of an AND or OR is emitted first, since it runs last. The left side
/// then falls through into it on the one outcome and jumps over it on the other. NOT
/// swaps the two targets. A constant is the backend's fragment that passes or drops at
/// once.
pub open spec fn spec_walk<K: Backend>(t: Tree<K>, jt: int, jf: int) -> Option<Seq<K::Instruction>>
    decreases t,
{
    match t {
        Tree::Terminal(c) => Some(spec_build(c, jt, jf)),
        Tree::Const(b) => Some(
            if b {
                K::spec_teotology()
            } else {
                K::spec_contradiction()
            },
        ),
        Tree::Not(x) => spec_walk(*x, jf, jt),
        Tree::And(x, y) => match spec_walk(*y, jt, jf) {
            None => None,
            Some(tail) => if jf + tail.len() > K::spec_reach() {
                None
            } else {
                match spec_walk(*x, 0, jf + tail.len()) {
                    None => None,
                    Some(head) => Some(tail + head),
                }
            },
        },
        Tree::Or(x, y) => match spec_walk(*y, jt, jf) {
            None => None,
            Some(tail) => if jt + tail.len() > K::spec_reach() {
                None
            } else {
                match spec_walk(*x, jt + tail.len(), 0) {
                    None => None,
                    Some(head) => Some(tail + head),
                }
            },
        },
    }
}

/// The program for `t`, in execution order: the backend's initialization, the
/// instructions that decide `t`, the exit block.
pub open spec fn spec_lower<K: Backend>(t: Tree<K>) -> Option<Seq<K::Instruction>> {
    match spec_walk::<K>(t, K::spec_pass_entry() as int, K::spec_drop_entry() as int) {
        None => None,
        Some(body) => Some(
            (K::spec_return_sequence() + body + K::spec_initialization_sequence()).reverse(),
        ),
    }
}

/// `boolean_expression::Expr`, the expression type of the simplifier and of the decision
/// diagram. Nothing is said of what a value of it holds: it is only passed on.
#[verifier::external_type_specification]
#[verifier::external_body]
#[verifier::reject_recursive_types(T)]
pub struct ExOutsideExpr<T: Clone + std::fmt::Debug + Eq + std::hash::Hash>(
    boolean_expression::Expr<T>,
);

/// The same expression as a value of `boolean_expression::Expr`, built with its
/// constructors `Expr::not`, `Expr::and` and `Expr::or`.
#[verifier::external_body]
fn to_outside<K: Backend>(f: Formula<K>) -> boolean_expression::Expr<Condition<K>> {
    match f {
        Formula::Terminal(c) => boolean_expression::Expr::Terminal(c),
        Formula::Const(b) => boolean_expression::Expr::Const(b),
        Formula::Not(x) => boolean_expression::Expr::not(to_outside(*x)),
        Formula::And(x, y) => boolean_expression::Expr::and(to_outside(*x), to_outside(*y)),
        Formula::Or(x, y) => boolean_expression::Expr::or(to_outside(*x), to_outside(*y)),
    }
}

/// The same expression read back from a value of `boolean_expression::Expr`, variant by
/// variant.
#[verifier::external_body]
fn from_outside<K: Backend>(e: boolean_expression::Expr<Condition<K>>) -> Formula<K> {
    match e {
        boolean_expression::Expr::Terminal(c) => Formula::Terminal(c),
        boolean_expression::Expr::Const(b) => Formula::Const(b),
        boolean_expression::Expr::Not(x) => Formula::Not(Box::new(from_outside(*x))),
        boolean_expression::Expr::And(x, y) => Formula::And(
            Box::new(from_outside(*x)),
            Box::new(from_outside(*y)),
        ),
        boolean_expression::Expr::Or(x, y) => Formula::Or(
            Box::new(from_outside(*x)),
            Box::new(from_outside(*y)),
        ),
    }
}

/// Calls `boolean_expression::Expr::simplify_via_laws`, which rewrites the expression
/// by De Morgan's laws, distribution of AND over OR, the identities of the constants,
/// double negation and `x AND x = x OR x = x`, pass after pass, until a pass applies none
/// of them.
///
/// Believed of it: the result depends on the expression alone, and is named
/// [`simplified`]; it is one that no law applies to; an expression that no law applies to
/// comes back unchanged; each law keeps the truth value under every assignment of the
/// conditions; no law brings in a condition that was not there.
#[verifier::external_body]
fn simplify_via_laws<K: Backend>(f: Formula<K>) -> (r: Formula<K>)
    ensures
        raw(r@) == simplified(raw(f@)),
        simplifies_to(f@, r@),
{
    from_outside(to_outside(f).simplify_via_laws())
}

/// Builds the decision diagram of the expression with `boolean_expression::BDD::new`
/// and `BDD::from_expr`, and asks `BDD::sat` whether it is satisfiable.
///
/// Believed of it: the answer is whether some assignment of truth values to the
/// conditions makes the expression true.
#[verifier::external_body]
fn satisfiable_by_diagram<K: Backend>(f: &Formula<K>) -> (r: bool)
    ensures
        r == exists|holds: spec_fn(ConditionView<K>) -> bool| #[trigger] truth(f@, holds),
{
    let mut bdd = boolean_expression::BDD::new();
    let func = bdd.from_expr(&to_outside(f.clone()));
    bdd.sat(func)
}

/// A predicate over packets, to be combined with `&`, `|` and `!` and compiled for the
/// backend `K`.
#[derive(Clone, Debug, Ord, Eq, Hash, PartialEq, PartialOrd)]
pub struct Predicate<K: Backend> {
    pub expr: Formula<K>,
}

impl<K: Backend> View for Predicate<K> {
    type V = Tree<K>;

    open spec fn view(&self) -> Tree<K> {
        self.expr@
    }
}

/// Some assignment of truth values to its conditions makes `t` true.
pub open spec fn spec_satisfiable<K: Backend>(t: Tree<K>) -> bool {
    exists|holds: spec_fn(ConditionView<K>) -> bool| #[trigger] truth(t, holds)
}

impl<K: Backend> Predicate<K> {
    /// The predicate with the expression `expr`.
    pub fn from_inner(expr: Formula<K>) -> (r: Self)
        ensures
            r@ == expr@,
            r.expr == expr,
    {
        Predicate { expr }
    }

    /// The expression of the predicate.
    pub fn into_inner(self) -> (r: Formula<K>)
        ensures
            r@ == self@,
            r == self.expr,
    {
        self.expr
    }

    /// The predicate that holds where `condition` does.
    pub fn terminal(condition: Condition<K>) -> (r: Self)
        ensures
            r@ == Tree::Terminal(condition@),
    {
        Predicate { expr: Formula::Terminal(condition) }
    }

    /// The predicate with the fixed truth value `value`.
    pub fn constant(value: bool) -> (r: Self)
        ensures
            r@ == Tree::<K>::Const(value),
    {
        Predicate { expr: Formula::Const(value) }
    }

    /// The predicate that never holds.
    pub fn const_false() -> (r: Self)
        ensures
            r@ == Tree::<K>::Const(false),
    {
        Predicate { expr: Formula::Const(false) }
    }

    /// The predicate that always holds.
    pub fn const_true() -> (r: Self)
        ensures
            r@ == Tree::<K>::Const(true),
    {
        Predicate { expr: Formula::Const(true) }
    }

    /// Whether some assignment of truth values to the conditions makes the predicate
    /// true. `false` says that no packet passes. `true` says less: the test knows nothing
    /// of what the conditions mean, so two of them that no packet meets together count as
    /// independent.
    pub fn satisfiable(&self) -> (r: bool)
        ensures
            r == spec_satisfiable(self@),
    {
        satisfiable_by_diagram(&self.expr)
    }

    /// Rewrites the predicate by the laws of boolean algebra until none applies. The
    /// result has the truth value of `self` whatever its conditions mean, and holds no
    /// condition that `self` did not.
    pub fn simplify(self) -> (r: Self)
        ensures
            r@ == spec_simplify(self@),
            simplifies_to(self@, r@),
    {
        let r = Predicate { expr: simplify_via_laws(self.expr) };
        proof {
            lemma_raw_tells_apart(r@, spec_simplify(self@));
        }
        r
    }
}

impl<K: Backend> BitAnd for Predicate<K> {
    type Output = Predicate<K>;

    /// The predicate that holds where both do.
    fn bitand(self, rhs: Predicate<K>) -> (r: Predicate<K>) {
        Predicate { expr: Formula::And(Box::new(self.expr), Box::new(rhs.expr)) }
    }
}

impl<K: Backend> BitAndSpecImpl for Predicate<K> {
    open spec fn obeys_bitand_spec() -> bool {
        true
    }

    open spec fn bitand_req(self, rhs: Predicate<K>) -> bool {
        true
    }

    open spec fn bitand_spec(self, rhs: Predicate<K>) -> Predicate<K> {
        Predicate { expr: Formula::And(Box::new(self.expr), Box::new(rhs.expr)) }
    }
}

impl<K: Backend> BitOr for Predicate<K> {
    type Output = Predicate<K>;

    /// The predicate that holds where either does.
    fn bitor(self, rhs: Predicate<K>) -> (r: Predicate<K>) {
        Predicate { expr: Formula::Or(Box::new(self.expr), Box::new(rhs.expr)) }
    }
}

impl<K: Backend> BitOrSpecImpl for Predicate<K> {
    open spec fn obeys_bitor_spec() -> bool {
        true
    }

    open spec fn bitor_req(self, rhs: Predicate<K>) -> bool {
        true
    }

    open spec fn bitor_spec(self, rhs: Predicate<K>) -> Predicate<K> {
        Predicate { expr: Formula::Or(Box::new(self.expr), Box::new(rhs.expr)) }
    }
}

impl<K: Backend> Not for Predicate<K> {
    type Output = Predicate<K>;

    /// The predicate that holds where `self` does not.
    fn not(self) -> (r: Predicate<K>) {
        Predicate { expr: Formula::Not(Box::new(self.expr)) }
    }
}

impl<K: Backend> NotSpecImpl for Predicate<K> {
    open spec fn obeys_not_spec() -> bool {
        true
    }

    open spec fn not_req(self) -> bool {
        true
    }

    open spec fn not_spec(self) -> Predicate<K> {
        Predicate { expr: Formula::Not(Box::new(self.expr)) }
    }
}

/// Two conditions with the same keys are the same.
pub proof fn lemma_raw_condition_tells_apart<K: Backend>(a: ConditionView<K>, b: ConditionView<K>)
    requires
        raw_condition(a) == raw_condition(b),
    ensures
        a == b,
{
    let x = raw_condition(a);
    let y = raw_condition(b);
    assert(a.computation.len() == x.computation.len());
    assert(b.computation.len() == y.computation.len());
    assert forall|j: int| 0 <= j < a.computation.len() implies a.computation[j]
        == b.computation[j] by {
        assert(x.computation[j] == K::spec_instruction_key(a.computation[j]));
        assert(y.computation[j] == K::spec_instruction_key(b.computation[j]));
        K::lemma_instruction_key(a.computation[j], b.computation[j]);
    }
    assert(a.computation =~= b.computation);
    K::lemma_comparison_key(a.comparison, b.comparison);
    K::lemma_value_key(a.operand, b.operand);
}

/// Two predicates with the same keys are the same.
pub proof fn lemma_raw_tells_apart<K: Backend>(a: Tree<K>, b: Tree<K>)
    requires
        raw(a) == raw(b),
    ensures
        a == b,
    decreases a,
{
    match (a, b) {
        (Tree::Terminal(c), Tree::Terminal(d)) => {
            lemma_raw_condition_tells_apart(c, d);
        },
        (Tree::Const(_), Tree::Const(_)) => {},
        (Tree::Not(x), Tree::Not(u)) => {
            lemma_raw_tells_apart(*x, *u);
        },
        (Tree::And(x, y), Tree::And(u, v)) => {
            lemma_raw_tells_apart(*x, *u);
            lemma_raw_tells_apart(*y, *v);
        },
        (Tree::Or(x, y), Tree::Or(u, v)) => {
            lemma_raw_tells_apart(*x, *u);
            lemma_raw_tells_apart(*y, *v);
        },
        _ => {},
    }
}

/// The elements of `v` in the opposite order.
pub fn reversed<T>(v: Vec<T>) -> (r: Vec<T>)
    ensures
        r@ == v@.reverse(),
{
    let mut rest = v;
    let mut out: Vec<T> = Vec::new();
    while rest.len() > 0
        invariant
            rest@.len() + out@.len() == v@.len(),
            forall|i: int| 0 <= i < rest@.len() ==> rest@[i] == v@[i],
            forall|i: int| 0 <= i < out@.len() ==> out@[i] == v@[v@.len() - 1 - i],
        decreases rest@.len(),
    {
        let last = rest.pop();
        match last {
            Some(x) => out.push(x),
            None => {},
        }
    }
    assert(out@ =~= v@.reverse());
    out
}

/// Lowers `f` to the instructions of [`spec_walk`].
pub fn walk<K: Backend>(f: Formula<K>, jt: usize, jf: usize) -> (r: Option<Vec<K::Instruction>>)
    requires
        jt <= K::spec_reach(),
        jf <= K::spec_reach(),
    ensures
        match r {
            Some(v) => spec_walk::<K>(f@, jt as int, jf as int) == Some(v@),
            None => spec_walk::<K>(f@, jt as int, jf as int) is None,
        },
    decreases f,
{
    match f {
        Formula::Terminal(condition) => Some(condition.build(jt, jf)),
        Formula::Not(e) => walk(*e, jf, jt),
        Formula::And(a, b) => {
            match walk(*b, jt, jf) {
                None => None,
                Some(mut res) => {
                    if res.len() > K::reach() - jf {
                        None
                    } else {
                        match walk(*a, 0, jf + res.len()) {
                            None => None,
                            Some(mut head) => {
                                res.append(&mut head);
                                Some(res)
                            },
                        }
                    }
                },
            }
        },
        Formula::Or(a, b) => {
            match walk(*b, jt, jf) {
                None => None,
                Some(mut res) => {
                    if res.len() > K::reach() - jt {
                        None
                    } else {
                        match walk(*a, jt + res.len(), 0) {
                            None => None,
                            Some(mut head) => {
                                res.append(&mut head);
                                Some(res)
                            },
                        }
                    }
                },
            }
        },
        Formula::Const(boolean) => {
            if boolean {
                Some(K::teotology())
            } else {
                Some(K::contradiction())
            }
        },
    }
}

impl<K: Backend> Predicate<K> {
    /// Lowers the predicate to the instructions that decide it, in emission order, for
    /// targets `jt` and `jf` instructions behind them.
    pub fn walk(self, jt: usize, jf: usize) -> (r: Option<Vec<K::Instruction>>)
        requires
            jt <= K::spec_reach(),
            jf <= K::spec_reach(),
        ensures
            match r {
                Some(v) => spec_walk::<K>(self@, jt as int, jf as int) == Some(v@),
                None => spec_walk::<K>(self@, jt as int, jf as int) is None,
            },
    {
        walk(self.expr, jt, jf)
    }

    /// Lowers the predicate as it stands to the program of [`spec_lower`]. Fails with
    /// `EOVERFLOW` where a jump would have to go further than the backend can express.
    pub fn lower(self) -> (r: Result<Filter<K>, SystemError>)
        ensures
            match r {
                Ok(filter) => spec_lower::<K>(self@) == Some(filter@),
                Err(e) => spec_lower::<K>(self@) is None && e == SystemError(EOVERFLOW),
            },
    {
        let (mut instructions, jt, jf) = K::return_sequence();
        match walk(self.expr, jt, jf) {
            None => Err(SystemError(EOVERFLOW)),
            Some(mut body) => {
                instructions.append(&mut body);
                let mut init = K::initialization_sequence();
                instructions.append(&mut init);
                Ok(Filter::from_instructions(reversed(instructions)))
            },
        }
    }

    /// Compiles the predicate: simplifies it, then lowers what came of it. So the program
    /// is that of a predicate that no law of the simplifier applies to, that has the truth
    /// value of `self` whatever the conditions mean, and that holds only conditions of
    /// `self`. Fails with `EOVERFLOW` where a jump would have to go further than the
    /// backend can express.
    pub fn compile(self) -> (r: Result<Filter<K>, SystemError>)
        ensures
            simplifies_to(self@, spec_simplify(self@)),
            match r {
                Ok(filter) => spec_lower::<K>(spec_simplify(self@)) == Some(filter@),
                Err(e) => spec_lower::<K>(spec_simplify(self@)) is None && e == SystemError(
                    EOVERFLOW,
                ),
            },
    {
        self.simplify().lower()
    }
}

} // verus!
