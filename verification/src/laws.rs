//! Laws of simplification and lowering that hold for every backend.

use vstd::prelude::*;
use crate::backend::Backend;
use crate::predicate::{
    const_free, fixed, simplifies_to, spec_satisfiable, spec_walk, truth, ConditionView, Tree,
};

verus! {

/// A predicate that no law of the simplifier applies to is a constant or holds none.
pub proof fn lemma_fixed_shape<K: Backend>(t: Tree<K>)
    requires
        fixed(t),
    ensures
        t is Const || const_free(t),
    decreases t,
{
    match t {
        Tree::Terminal(_) => {},
        Tree::Const(_) => {},
        Tree::Not(x) => {
            assert(const_free(*x));
        },
        Tree::And(x, y) => {
            lemma_fixed_shape(*x);
            lemma_fixed_shape(*y);
        },
        Tree::Or(x, y) => {
            lemma_fixed_shape(*x);
            lemma_fixed_shape(*y);
        },
    }
}

/// Simplifying twice gives what simplifying once gives: whatever simplification makes of
/// `p`, it leaves that as it is.
pub proof fn law_simplify_idempotent<K: Backend>(p: Tree<K>, once: Tree<K>, twice: Tree<K>)
    requires
        simplifies_to(p, once),
        simplifies_to(once, twice),
    ensures
        twice == once,
{
}

/// A constant is lowered to the backend's fragment that passes or drops at once, whatever
/// the targets.
pub proof fn law_constant_walk<K: Backend>(value: bool, jt: int, jf: int)
    ensures
        spec_walk::<K>(Tree::Const(value), jt, jf) == Some(
            if value {
                K::spec_teotology()
            } else {
                K::spec_contradiction()
            },
        ),
{
}

/// A predicate that is not satisfiable holds whatever the conditions mean of nothing:
/// `false` from the test for satisfiability says that no packet passes.
pub proof fn law_unsatisfiable_never_holds<K: Backend>(
    t: Tree<K>,
    holds: spec_fn(ConditionView<K>) -> bool,
)
    requires
        !spec_satisfiable(t),
    ensures
        !truth(t, holds),
{
}

} // verus!
