//! Tests on the IPv4 header. The plain forms take it to follow an Ethernet header and
//! test for that; the `shift_` forms take it to start `shift` octets later than that and
//! test nothing else.
//!
//! An address is given as the number that its four octets spell.

use vstd::prelude::*;
use crate::backend::Backend;
use crate::consts::{ETH_P_IP, OFFSET_IP_DST, OFFSET_IP_PROTO, OFFSET_IP_SRC};
use crate::idiom::ethernet::{ether_type_ip4, spec_ether_type};
use crate::idiom::{
    shift_offset_equals_u32, shift_offset_equals_u8, spec_offset_equals_u32, spec_offset_equals_u8,
};
use crate::predicate::{Predicate, Tree};

verus! {

/// The greatest `shift` that keeps every field of the header at an offset that fits.
pub const MAX_SHIFT: u32 = 0xFFFF_FFE1;

/// An IPv4 frame whose four octets at `offset` spell `ip`.
pub open spec fn spec_ip4_with<K: Backend>(offset: u32, ip: u32) -> Tree<K> {
    Tree::And(
        Box::new(spec_ether_type::<K>(ETH_P_IP)),
        Box::new(spec_offset_equals_u32::<K>(offset, ip)),
    )
}

/// True iff the protocol field is `proto`, with the header `shift` octets further on.
pub fn shift_ip_proto<K: Backend>(proto: u8, shift: u32) -> (r: Predicate<K>)
    requires
        shift <= MAX_SHIFT,
    ensures
        r@ == spec_offset_equals_u8::<K>((OFFSET_IP_PROTO + shift) as u32, proto),
{
    shift_offset_equals_u8(OFFSET_IP_PROTO, proto, shift)
}

/// True iff the protocol field is `proto`.
pub fn ip_proto<K: Backend>(proto: u8) -> (r: Predicate<K>)
    ensures
        r@ == spec_offset_equals_u8::<K>(OFFSET_IP_PROTO, proto),
{
    shift_ip_proto(proto, 0)
}

/// True iff the source address is `ip`, with the header `shift` octets further on.
pub fn shift_ip_src<K: Backend>(ip: u32, shift: u32) -> (r: Predicate<K>)
    requires
        shift <= MAX_SHIFT,
    ensures
        r@ == spec_offset_equals_u32::<K>((OFFSET_IP_SRC + shift) as u32, ip),
{
    shift_offset_equals_u32(OFFSET_IP_SRC, ip, shift)
}

/// True iff the frame carries IPv4 and its source address is `ip`.
pub fn ip_src<K: Backend>(ip: u32) -> (r: Predicate<K>)
    ensures
        r@ == spec_ip4_with::<K>(OFFSET_IP_SRC, ip),
{
    ether_type_ip4() & shift_ip_src(ip, 0)
}

/// True iff the destination address is `ip`, with the header `shift` octets further on.
pub fn shift_ip_dst<K: Backend>(ip: u32, shift: u32) -> (r: Predicate<K>)
    requires
        shift <= MAX_SHIFT,
    ensures
        r@ == spec_offset_equals_u32::<K>((OFFSET_IP_DST + shift) as u32, ip),
{
    shift_offset_equals_u32(OFFSET_IP_DST, ip, shift)
}

/// True iff the frame carries IPv4 and its destination address is `ip`.
pub fn ip_dst<K: Backend>(ip: u32) -> (r: Predicate<K>)
    ensures
        r@ == spec_ip4_with::<K>(OFFSET_IP_DST, ip),
{
    ether_type_ip4() & shift_ip_dst(ip, 0)
}

/// True iff the source or the destination address is `ip`, with the header `shift`
/// octets further on.
pub fn shift_ip_host<K: Backend>(ip: u32, shift: u32) -> (r: Predicate<K>)
    requires
        shift <= MAX_SHIFT,
    ensures
        r@ == Tree::Or(
            Box::new(spec_offset_equals_u32::<K>((OFFSET_IP_SRC + shift) as u32, ip)),
            Box::new(spec_offset_equals_u32::<K>((OFFSET_IP_DST + shift) as u32, ip)),
        ),
{
    shift_ip_src(ip, shift) | shift_ip_dst(ip, shift)
}

/// True iff the frame carries IPv4 and `ip` is its source or its destination address.
pub fn ip_host<K: Backend>(ip: u32) -> (r: Predicate<K>)
    ensures
        r@ == Tree::And(
            Box::new(spec_ether_type::<K>(ETH_P_IP)),
            Box::new(
                Tree::Or(
                    Box::new(spec_offset_equals_u32::<K>(OFFSET_IP_SRC, ip)),
                    Box::new(spec_offset_equals_u32::<K>(OFFSET_IP_DST, ip)),
                ),
            ),
        ),
{
    ether_type_ip4() & shift_ip_host(ip, 0)
}

} // verus!
