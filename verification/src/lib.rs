//! Packet filters as boolean predicates over packet bytes, compiled to programs for the
//! two BPF machines of the kernel.
//!
//! A [`predicate::Predicate`] is built from conditions, each a load from the packet and
//! a comparison, with `&`, `|` and `!`; the [`idiom`] module has the common ones ready.
//! [`predicate::Predicate::compile`] simplifies it and lowers it to a [`filter::Filter`]
//! for a [`backend::Backend`], which packs it for the kernel.
//!
//! What the compiler promises is proved: [`classic_correctness`] and
//! [`extended_correctness`] show that a compiled program passes exactly the packets its
//! predicate holds of, reads no more of a packet than deciding the predicate takes, and is
//! a program the kernel accepts. [`classic_machine`] and [`extended_machine`] hold the
//! models of the two machines that these proofs are about, each with an interpreter that
//! runs a program as the model does.

pub mod attach;
pub mod backend;
pub mod cbpf;
pub mod classic_correctness;
pub mod classic_machine;
pub mod consts;
pub mod ebpf;
pub mod extended_correctness;
pub mod extended_machine;
pub mod filter;
pub mod idiom;
pub mod laws;
pub mod predicate;
mod sealed;
pub mod semantics;
pub mod system;
