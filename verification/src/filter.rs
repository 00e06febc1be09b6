//! A finished program.

use vstd::prelude::*;
use crate::backend::Backend;
use crate::system::SystemError;

verus! {

/// A program ready to be packed for the kernel: the instructions in execution order.
#[derive(Debug)]
pub struct Filter<K: Backend> {
    inner: Vec<K::Instruction>,
}

impl<K: Backend> View for Filter<K> {
    type V = Seq<K::Instruction>;

    closed spec fn view(&self) -> Seq<K::Instruction> {
        self.inner@
    }
}

impl<K: Backend> Filter<K> {
    /// The filter that runs `instructions`.
    pub fn from_instructions(instructions: Vec<K::Instruction>) -> (r: Self)
        ensures
            r@ == instructions@,
    {
        Filter { inner: instructions }
    }

    /// The instructions of the filter.
    pub fn into_inner(self) -> (r: Vec<K::Instruction>)
        ensures
            r@ == self@,
    {
        self.inner
    }

    /// The number of instructions.
    pub fn len(&self) -> (n: usize)
        ensures
            n == self@.len(),
    {
        self.inner.len()
    }

    /// Packs the filter for the kernel, as [`Backend::build_attachable`] does.
    pub fn build(self) -> (r: Result<K::Output, SystemError>)
        ensures
            self@.len() > crate::backend::MAX_INSTRUCTIONS ==> r == Err::<K::Output, SystemError>(
                SystemError(crate::consts::EOVERFLOW),
            ),
            self@.len() <= crate::backend::MAX_INSTRUCTIONS ==> r is Ok && K::spec_packs(
                self@,
                r->Ok_0,
            ),
    {
        K::build_attachable(self.inner)
    }
}

} // verus!
