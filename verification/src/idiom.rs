//! Ready-made predicates, from single comparisons at an offset up to common link and
//! network layer tests.
//!
//! Numbers are compared as the packet holds them in network byte order: a value is given
//! as the number that its octets spell, most significant first.

use vstd::prelude::*;
use crate::backend::Backend;
use crate::predicate::{Condition, ConditionView, Predicate, Tree};

pub mod ethernet;
pub mod ip;

verus! {

/// The code of the comparison for equality, `BPF_JEQ`.
pub const EQUAL: u8 = 0x10;

/// The predicate that holds where what `load` loads equals `value`.
pub open spec fn spec_loaded_equals<K: Backend>(load: Seq<K::Instruction>, value: u32) -> Tree<K> {
    Tree::Terminal(
        ConditionView {
            computation: load,
            comparison: K::spec_comparison(EQUAL),
            operand: K::spec_value(value),
        },
    )
}

pub open spec fn spec_offset_equals_u8<K: Backend>(offset: u32, value: u8) -> Tree<K> {
    spec_loaded_equals::<K>(K::spec_load_u8_at(offset), value as u32)
}

pub open spec fn spec_offset_equals_u16<K: Backend>(offset: u32, value: u16) -> Tree<K> {
    spec_loaded_equals::<K>(K::spec_load_u16_at(offset), value as u32)
}

pub open spec fn spec_offset_equals_u32<K: Backend>(offset: u32, value: u32) -> Tree<K> {
    spec_loaded_equals::<K>(K::spec_load_u32_at(offset), value)
}

/// A number of one, two or four octets to look for in a packet.
#[derive(Debug, Copy, Clone, PartialEq, Eq, Structural)]
pub enum Value {
    Byte(u8),
    Half(u16),
    Word(u32),
}

pub open spec fn spec_offset_equals<K: Backend>(offset: u32, value: Value) -> Tree<K> {
    match value {
        Value::Byte(b) => spec_offset_equals_u8::<K>(offset, b),
        Value::Half(h) => spec_offset_equals_u16::<K>(offset, h),
        Value::Word(w) => spec_offset_equals_u32::<K>(offset, w),
    }
}

/// True iff the octets at `offset`, as many as `value` has, spell `value`.
pub fn offset_equals<K: Backend>(offset: u32, value: Value) -> (r: Predicate<K>)
    ensures
        r@ == spec_offset_equals::<K>(offset, value),
{
    match value {
        Value::Byte(b) => offset_equals_u8(offset, b),
        Value::Half(h) => offset_equals_u16(offset, h),
        Value::Word(w) => offset_equals_u32(offset, w),
    }
}

/// True iff the octet at `offset` equals `value`.
pub fn offset_equals_u8<K: Backend>(offset: u32, value: u8) -> (r: Predicate<K>)
    ensures
        r@ == spec_offset_equals_u8::<K>(offset, value),
{
    Predicate::terminal(
        Condition::new(K::load_u8_at(offset), K::comparison(EQUAL), K::value(value as u32)),
    )
}

/// True iff the octet at `offset + shift` equals `value`.
pub fn shift_offset_equals_u8<K: Backend>(offset: u32, value: u8, shift: u32) -> (r: Predicate<K>)
    requires
        offset + shift <= u32::MAX,
    ensures
        r@ == spec_offset_equals_u8::<K>((offset + shift) as u32, value),
{
    offset_equals_u8(offset + shift, value)
}

/// True iff the two octets at `offset` spell `value`.
pub fn offset_equals_u16<K: Backend>(offset: u32, value: u16) -> (r: Predicate<K>)
    ensures
        r@ == spec_offset_equals_u16::<K>(offset, value),
{
    Predicate::terminal(
        Condition::new(K::load_u16_at(offset), K::comparison(EQUAL), K::value(value as u32)),
    )
}

/// True iff the two octets at `offset + shift` spell `value`.
pub fn shift_offset_equals_u16<K: Backend>(offset: u32, value: u16, shift: u32) -> (r: Predicate<
    K,
>)
    requires
        offset + shift <= u32::MAX,
    ensures
        r@ == spec_offset_equals_u16::<K>((offset + shift) as u32, value),
{
    offset_equals_u16(offset + shift, value)
}

/// True iff the four octets at `offset` spell `value`.
pub fn offset_equals_u32<K: Backend>(offset: u32, value: u32) -> (r: Predicate<K>)
    ensures
        r@ == spec_offset_equals_u32::<K>(offset, value),
{
    Predicate::terminal(Condition::new(K::load_u32_at(offset), K::comparison(EQUAL), K::value(value)))
}

/// True iff the four octets at `offset + shift` spell `value`.
pub fn shift_offset_equals_u32<K: Backend>(offset: u32, value: u32, shift: u32) -> (r: Predicate<
    K,
>)
    requires
        offset + shift <= u32::MAX,
    ensures
        r@ == spec_offset_equals_u32::<K>((offset + shift) as u32, value),
{
    offset_equals_u32(offset + shift, value)
}

} // verus!
