//! Tests on the Ethernet header of a frame that starts at offset 0.

use vstd::prelude::*;
use crate::backend::Backend;
use crate::consts::{
    ETH_P_ARP, ETH_P_IP, ETH_P_IPV6, OFFSET_ETHER_DST, OFFSET_ETHER_SRC, OFFSET_ETHER_TYPE,
};
use crate::idiom::{
    offset_equals_u16, offset_equals_u32, spec_offset_equals_u16, spec_offset_equals_u32,
};
use crate::predicate::{Predicate, Tree};

verus! {

/// The number that the first four octets of `mac` spell.
pub open spec fn spec_mac_head(mac: [u8; 6]) -> u32 {
    (mac[0] * 16777216 + mac[1] * 65536 + mac[2] * 256 + mac[3]) as u32
}

/// The number that the last two octets of `mac` spell.
pub open spec fn spec_mac_tail(mac: [u8; 6]) -> u16 {
    (mac[4] * 256 + mac[5]) as u16
}

/// Splits a hardware address into the numbers that its first four and its last two
/// octets spell.
pub fn mac_to_u32_and_u16(mac: [u8; 6]) -> (r: (u32, u16))
    ensures
        r.0 == spec_mac_head(mac),
        r.1 == spec_mac_tail(mac),
{
    let head: u32 = (mac[0] as u32) * 16777216 + (mac[1] as u32) * 65536 + (mac[2] as u32) * 256
        + (mac[3] as u32);
    let tail: u16 = (mac[4] as u16) * 256 + (mac[5] as u16);
    (head, tail)
}

/// The hardware address `mac` stands at `offset`: its first four octets there and its
/// last two right behind them.
pub open spec fn spec_mac_at<K: Backend>(offset: u32, mac: [u8; 6]) -> Tree<K> {
    Tree::And(
        Box::new(spec_offset_equals_u32::<K>(offset, spec_mac_head(mac))),
        Box::new(spec_offset_equals_u16::<K>((offset + 4) as u32, spec_mac_tail(mac))),
    )
}

pub open spec fn spec_ether_type<K: Backend>(ether_type: u16) -> Tree<K> {
    spec_offset_equals_u16::<K>(OFFSET_ETHER_TYPE, ether_type)
}

/// True iff the frame's EtherType is `ether_type`.
pub fn ether_type<K: Backend>(protocol: u16) -> (r: Predicate<K>)
    ensures
        r@ == spec_ether_type::<K>(protocol),
{
    offset_equals_u16(OFFSET_ETHER_TYPE, protocol)
}

/// True iff the frame's source address is `mac`.
pub fn ether_src<K: Backend>(mac: [u8; 6]) -> (r: Predicate<K>)
    ensures
        r@ == spec_mac_at::<K>(OFFSET_ETHER_SRC, mac),
{
    let (foursome, twosome) = mac_to_u32_and_u16(mac);
    offset_equals_u32(OFFSET_ETHER_SRC, foursome) & offset_equals_u16(
        OFFSET_ETHER_SRC + 4,
        twosome,
    )
}

/// True iff the frame's destination address is `mac`.
pub fn ether_dst<K: Backend>(mac: [u8; 6]) -> (r: Predicate<K>)
    ensures
        r@ == spec_mac_at::<K>(OFFSET_ETHER_DST, mac),
{
    let (foursome, twosome) = mac_to_u32_and_u16(mac);
    offset_equals_u32(OFFSET_ETHER_DST, foursome) & offset_equals_u16(
        OFFSET_ETHER_DST + 4,
        twosome,
    )
}

/// True iff `mac` is the frame's destination or its source address.
pub fn ether_host<K: Backend>(mac: [u8; 6]) -> (r: Predicate<K>)
    ensures
        r@ == Tree::Or(
            Box::new(spec_mac_at::<K>(OFFSET_ETHER_DST, mac)),
            Box::new(spec_mac_at::<K>(OFFSET_ETHER_SRC, mac)),
        ),
{
    ether_dst(mac) | ether_src(mac)
}

/// True iff the frame carries ARP.
pub fn ether_type_arp<K: Backend>() -> (r: Predicate<K>)
    ensures
        r@ == spec_ether_type::<K>(ETH_P_ARP),
{
    ether_type(ETH_P_ARP)
}

/// True iff the frame carries IPv4.
pub fn ether_type_ip4<K: Backend>() -> (r: Predicate<K>)
    ensures
        r@ == spec_ether_type::<K>(ETH_P_IP),
{
    ether_type(ETH_P_IP)
}

/// True iff the frame carries IPv6.
pub fn ether_type_ip6<K: Backend>() -> (r: Predicate<K>)
    ensures
        r@ == spec_ether_type::<K>(ETH_P_IPV6),
{
    ether_type(ETH_P_IPV6)
}

} // verus!
