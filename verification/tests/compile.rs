use bs_filter::backend::{Classic, Extended};
use bs_filter::cbpf::{Comparison, SocketFilter};
use bs_filter::consts::EOVERFLOW;
use bs_filter::ebpf::Instruction;
use bs_filter::extended_machine;
use bs_filter::idiom::ethernet::{ether_host, ether_type, ether_type_arp, ether_type_ip4};
use bs_filter::idiom::ip::{ip_host, shift_ip_dst, shift_ip_src};
use bs_filter::idiom::{offset_equals_u32, offset_equals_u8};
use bs_filter::classic_machine::execute;
use bs_filter::predicate::{walk, Condition, Formula, Predicate};
use bs_filter::system::SystemError;

fn op(code: u16, jt: u8, jf: u8, k: u32) -> SocketFilter {
    SocketFilter::new(code, jt, jf, k)
}

fn insn(code: u8, regs: u8, off: i16, imm: i32) -> Instruction {
    Instruction { code, regs, off, imm }
}

fn classic(p: Predicate<Classic>) -> Vec<SocketFilter> {
    p.compile().unwrap().into_inner()
}

fn frame(len: usize, ether_type: u16) -> Vec<u8> {
    let mut f = vec![0u8; len];
    f[12] = (ether_type >> 8) as u8;
    f[13] = (ether_type & 0xff) as u8;
    f
}

fn put32(f: &mut Vec<u8>, at: usize, v: u32) {
    f[at..at + 4].copy_from_slice(&v.to_be_bytes());
}

/// Every branch of every jump lands on an instruction of the program.
fn targets_inside(program: &[SocketFilter]) -> bool {
    program.iter().enumerate().all(|(i, x)| {
        let next = i + 1;
        match x.code {
            0x05 => next + (x.k as usize) < program.len(),
            0x15 | 0x25 | 0x35 | 0x45 => {
                next + (x.jt as usize) < program.len() && next + (x.jf as usize) < program.len()
            }
            0x06 | 0x16 => true,
            _ => next < program.len(),
        }
    })
}

#[test]
fn accept_all() {
    let program = classic(Predicate::const_true());
    assert_eq!(
        program,
        vec![
            op(0x80, 0, 0, 0),
            op(0x16, 0, 0, 0),
            op(0x80, 0, 0, 0),
            op(0x16, 0, 0, 0),
            op(0x06, 0, 0, 0),
        ]
    );
    assert_eq!(&program[..2], &[op(0x80, 0, 0, 0), op(0x16, 0, 0, 0)]);
    assert_eq!(execute(&program, &vec![0u8; 64]), Some(64));
    assert_eq!(execute(&program, &vec![0xffu8; 64]), Some(64));
    assert_eq!(execute(&program, &vec![]), Some(0));
}

#[test]
fn drop_all() {
    let program = classic(Predicate::const_false());
    assert_eq!(
        program,
        vec![op(0x06, 0, 0, 0), op(0x80, 0, 0, 0), op(0x16, 0, 0, 0), op(0x06, 0, 0, 0)]
    );
    assert_eq!(program[0], op(0x06, 0, 0, 0));
    assert_eq!(execute(&program, &vec![0u8; 64]), Some(0));
    assert_eq!(execute(&program, &vec![0xffu8; 1500]), Some(0));
}

#[test]
fn constants_walk_to_the_backend_fragments() {
    assert_eq!(
        walk::<Classic>(Formula::Const(true), 0, 2),
        Some(vec![op(0x16, 0, 0, 0), op(0x80, 0, 0, 0)])
    );
    assert_eq!(walk::<Classic>(Formula::Const(false), 7, 9), Some(vec![op(0x06, 0, 0, 0)]));
    assert_eq!(
        walk::<Extended>(Formula::Const(true), 0, 2),
        Some(vec![insn(0x95, 0, 0, 0), insn(0x61, 0x06, 0, 0)])
    );
    assert_eq!(
        walk::<Extended>(Formula::Const(false), 0, 2),
        Some(vec![insn(0x95, 0, 0, 0), insn(0xb7, 0, 0, 0)])
    );
}

#[test]
fn arp_only() {
    let program = classic(ether_type(0x0806));
    assert_eq!(
        program,
        vec![
            op(0x28, 0, 0, 12),
            op(0x15, 0, 2, 0x0806),
            op(0x80, 0, 0, 0),
            op(0x16, 0, 0, 0),
            op(0x06, 0, 0, 0),
        ]
    );
    assert_eq!(execute(&program, &frame(64, 0x0806)), Some(64));
    assert_eq!(execute(&program, &frame(64, 0x0800)), Some(0));
    assert_eq!(execute(&program, &frame(42, 0x0806)), Some(42));
    assert_eq!(classic(ether_type_arp()), program);
}

#[test]
fn arp_only_on_a_short_packet_drops() {
    let program = classic(ether_type_arp());
    assert_eq!(execute(&program, &vec![0x08u8; 13]), Some(0));
}

#[test]
fn ip_host_1_1_1_1() {
    let program = classic(ip_host(0x01010101));
    assert!(targets_inside(&program));
    let mut from = frame(64, 0x0800);
    put32(&mut from, 26, 0x01010101);
    put32(&mut from, 30, 0x02020202);
    assert_eq!(execute(&program, &from), Some(64));
    let mut to = frame(64, 0x0800);
    put32(&mut to, 26, 0x02020202);
    put32(&mut to, 30, 0x01010101);
    assert_eq!(execute(&program, &to), Some(64));
    let mut other = frame(64, 0x0800);
    put32(&mut other, 26, 0x02020202);
    put32(&mut other, 30, 0x02020202);
    assert_eq!(execute(&program, &other), Some(0));
    let mut arp = frame(64, 0x0806);
    put32(&mut arp, 26, 0x01010101);
    assert_eq!(execute(&program, &arp), Some(0));
}

#[test]
fn ether_host_aa_bb_cc_dd_ee_ff() {
    let mac = [0xaa, 0xbb, 0xcc, 0xdd, 0xee, 0xff];
    let program = classic(ether_host(mac));
    assert_eq!(
        program,
        vec![
            op(0x20, 0, 0, 0),
            op(0x15, 0, 2, 0xaabbccdd),
            op(0x28, 0, 0, 4),
            op(0x15, 4, 0, 0xeeff),
            op(0x20, 0, 0, 6),
            op(0x15, 0, 4, 0xaabbccdd),
            op(0x28, 0, 0, 10),
            op(0x15, 0, 2, 0xeeff),
            op(0x80, 0, 0, 0),
            op(0x16, 0, 0, 0),
            op(0x06, 0, 0, 0),
        ]
    );
    let mut dst = frame(60, 0x0800);
    dst[0..6].copy_from_slice(&mac);
    assert_eq!(execute(&program, &dst), Some(60));
    let mut src = frame(60, 0x0800);
    src[6..12].copy_from_slice(&mac);
    assert_eq!(execute(&program, &src), Some(60));
    assert_eq!(execute(&program, &frame(60, 0x0800)), Some(0));
    let mut half = frame(60, 0x0800);
    half[0..4].copy_from_slice(&mac[0..4]);
    half[10..12].copy_from_slice(&mac[4..6]);
    assert_eq!(execute(&program, &half), Some(0));
}

#[test]
fn not_swaps_the_targets() {
    let program = classic(!ether_type_arp());
    assert_eq!(program[1], op(0x15, 2, 0, 0x0806));
    assert_eq!(execute(&program, &frame(64, 0x0806)), Some(0));
    assert_eq!(execute(&program, &frame(64, 0x0800)), Some(64));
}

#[test]
fn and_jumps_over_its_right_side() {
    let program = classic(ether_type_ip4() & shift_ip_src(0x0a000001, 0));
    assert_eq!(
        program,
        vec![
            op(0x28, 0, 0, 12),
            op(0x15, 0, 4, 0x0800),
            op(0x20, 0, 0, 26),
            op(0x15, 0, 2, 0x0a000001),
            op(0x80, 0, 0, 0),
            op(0x16, 0, 0, 0),
            op(0x06, 0, 0, 0),
        ]
    );
    // A frame of another type is dropped though it is too short for the address.
    assert_eq!(execute(&program, &frame(20, 0x0806)), Some(0));
    let mut ip = frame(64, 0x0800);
    put32(&mut ip, 26, 0x0a000001);
    assert_eq!(execute(&program, &ip), Some(64));
}

#[test]
fn or_jumps_over_its_right_side() {
    let program = classic(ether_type_arp() | shift_ip_dst(0x0a000001, 0));
    assert_eq!(
        program,
        vec![
            op(0x28, 0, 0, 12),
            op(0x15, 2, 0, 0x0806),
            op(0x20, 0, 0, 30),
            op(0x15, 0, 2, 0x0a000001),
            op(0x80, 0, 0, 0),
            op(0x16, 0, 0, 0),
            op(0x06, 0, 0, 0),
        ]
    );
    // An ARP frame passes though it is too short for the address.
    assert_eq!(execute(&program, &frame(20, 0x0806)), Some(20));
    assert_eq!(execute(&program, &frame(64, 0x0800)), Some(0));
}

#[test]
fn other_comparisons() {
    let long = Predicate::<Classic>::terminal(Condition::new(
        vec![op(0x80, 0, 0, 0)],
        Comparison::GreaterThan,
        100,
    ));
    let program = long.lower().unwrap().into_inner();
    assert_eq!(execute(&program, &vec![0u8; 101]), Some(101));
    assert_eq!(execute(&program, &vec![0u8; 100]), Some(0));
    let flagged = Predicate::<Classic>::terminal(Condition::new(
        vec![op(0x30, 0, 0, 0)],
        Comparison::AndMask,
        0x0f,
    ));
    let program = flagged.lower().unwrap().into_inner();
    assert_eq!(execute(&program, &vec![0x08u8; 4]), Some(4));
    assert_eq!(execute(&program, &vec![0xf0u8; 4]), Some(0));
    let least = Predicate::<Classic>::terminal(Condition::new(
        vec![op(0x28, 0, 0, 0)],
        Comparison::GreaterEqual,
        0x0102,
    ));
    let program = least.lower().unwrap().into_inner();
    assert_eq!(execute(&program, &vec![0x01, 0x02]), Some(2));
    assert_eq!(execute(&program, &vec![0x01, 0x01]), Some(0));
}

#[test]
fn three_hundred_ors_compile_with_trampolines() {
    let mut p: Predicate<Classic> = offset_equals_u8(0, 1);
    for i in 1..=300u32 {
        p = p | offset_equals_u8(i, 1);
    }
    let program = classic(p);
    // The last 128 conditions reach the PASS entry directly, the 173 before them through
    // a trampoline each.
    assert_eq!(program.len(), 128 * 2 + 173 * 3 + 3);
    assert!(targets_inside(&program));
    assert!(program.iter().any(|x| x.code == 0x05));
    let none = vec![0u8; 301];
    assert_eq!(execute(&program, &none), Some(0));
    for hit in [0usize, 1, 150, 173, 174, 299, 300] {
        let mut one = vec![0u8; 301];
        one[hit] = 1;
        assert_eq!(execute(&program, &one), Some(301));
    }
}

#[test]
fn three_hundred_ands_compile_with_trampolines() {
    let mut p: Predicate<Classic> = offset_equals_u8(0, 1);
    for i in 1..=300u32 {
        p = p & offset_equals_u8(i, 1);
    }
    let program = classic(p);
    assert!(targets_inside(&program));
    let all = vec![1u8; 301];
    assert_eq!(execute(&program, &all), Some(301));
    for miss in [0usize, 1, 150, 299, 300] {
        let mut one = vec![1u8; 301];
        one[miss] = 0;
        assert_eq!(execute(&program, &one), Some(0));
    }
}

#[test]
fn extended_arp_only() {
    let program = ether_type_arp::<Extended>().compile().unwrap().into_inner();
    assert_eq!(
        program,
        vec![
            insn(0xbf, 0x61, 0, 0),
            insn(0x28, 0x00, 0, 12),
            insn(0x15, 0x00, 1, 0x0806),
            insn(0x05, 0x00, 2, 0),
            insn(0x61, 0x06, 0, 0),
            insn(0x05, 0x00, 1, 0),
            insn(0xb7, 0x00, 0, 0),
            insn(0x95, 0x00, 0, 0),
        ]
    );
}

#[test]
fn extended_programs_start_with_the_initialization() {
    let programs = vec![
        Predicate::<Extended>::const_true().compile().unwrap().into_inner(),
        Predicate::<Extended>::const_false().compile().unwrap().into_inner(),
        ip_host::<Extended>(0x01010101).compile().unwrap().into_inner(),
    ];
    for program in programs {
        assert_eq!(program[0], insn(0xbf, 0x61, 0, 0));
        assert_eq!(program[program.len() - 1], insn(0x95, 0, 0, 0));
        assert!(program.iter().all(|x| x.off >= 0));
    }
}

fn balanced(from: u32, to: u32) -> Predicate<Extended> {
    if to - from == 1 {
        offset_equals_u8(from, 1)
    } else {
        let mid = from + (to - from) / 2;
        balanced(from, mid) | balanced(mid, to)
    }
}

#[test]
fn extended_jump_out_of_reach_is_refused() {
    let refused = balanced(0, 16384).lower();
    assert_eq!(refused.err(), Some(SystemError(EOVERFLOW)));
    let fits = balanced(0, 8192).lower().unwrap();
    assert_eq!(fits.len(), 8192 * 3 + 5);
}

#[test]
fn filter_builds_its_attachable() {
    let filter = ether_type_arp::<Classic>().compile().unwrap();
    assert_eq!(filter.len(), 5);
    let attachable = filter.build().unwrap();
    assert_eq!(attachable.len(), 5);
    assert_eq!(attachable.instructions()[1], op(0x15, 0, 2, 0x0806));
}

fn extended(p: Predicate<Extended>) -> Vec<Instruction> {
    p.compile().unwrap().into_inner()
}

#[test]
fn extended_arp_only_agrees_with_classic() {
    let old = classic(ether_type_arp());
    let new = extended(ether_type_arp());
    for packet in [frame(64, 0x0806), frame(64, 0x0800), frame(42, 0x0806), vec![0u8; 13]] {
        assert_eq!(extended_machine::execute(&new, &packet), execute(&old, &packet));
    }
    assert_eq!(extended_machine::execute(&new, &frame(64, 0x0806)), Some(64));
    assert_eq!(extended_machine::execute(&new, &frame(64, 0x0800)), Some(0));
}

#[test]
fn extended_constants() {
    let pass = extended(Predicate::const_true());
    assert_eq!(
        &pass[..3],
        &[insn(0xbf, 0x61, 0, 0), insn(0x61, 0x06, 0, 0), insn(0x95, 0, 0, 0)]
    );
    assert_eq!(extended_machine::execute(&pass, &vec![0u8; 64]), Some(64));
    let drop = extended(Predicate::const_false());
    assert_eq!(
        &drop[..3],
        &[insn(0xbf, 0x61, 0, 0), insn(0xb7, 0x00, 0, 0), insn(0x95, 0, 0, 0)]
    );
    assert_eq!(extended_machine::execute(&drop, &vec![0u8; 64]), Some(0));
}

#[test]
fn extended_ip_host_agrees_with_classic() {
    let old = classic(ip_host(0x01010101));
    let new = extended(ip_host(0x01010101));
    let mut from = frame(64, 0x0800);
    put32(&mut from, 26, 0x01010101);
    let mut to = frame(64, 0x0800);
    put32(&mut to, 30, 0x01010101);
    let mut other = frame(64, 0x0800);
    put32(&mut other, 26, 0x02020202);
    put32(&mut other, 30, 0x02020202);
    for packet in [from.clone(), to, other.clone(), frame(64, 0x0806)] {
        assert_eq!(extended_machine::execute(&new, &packet), execute(&old, &packet));
    }
    assert_eq!(extended_machine::execute(&new, &from), Some(64));
    assert_eq!(extended_machine::execute(&new, &other), Some(0));
}

#[test]
fn extended_compares_sixty_four_bits() {
    // The immediate is widened with its sign, what was loaded is not: a number with its
    // top bit set equals nothing that four octets spell.
    let mut packet = frame(64, 0x0800);
    put32(&mut packet, 26, 0xc0a8_0001);
    let old = classic(offset_equals_u32(26, 0xc0a8_0001));
    let new = extended(offset_equals_u32(26, 0xc0a8_0001));
    assert_eq!(execute(&old, &packet), Some(64));
    assert_eq!(extended_machine::execute(&new, &packet), Some(0));
}

#[test]
fn machines_refuse_what_they_do_not_know() {
    assert_eq!(execute(&vec![op(0x00, 0, 0, 1)], &vec![0u8; 4]), None);
    assert_eq!(execute(&vec![op(0x05, 0, 0, 9), op(0x06, 0, 0, 0)], &vec![0u8; 4]), None);
    assert_eq!(execute(&vec![], &vec![0u8; 4]), None);
    assert_eq!(extended_machine::execute(&vec![insn(0x95, 0, 0, 0)], &vec![0u8; 4]), None);
    assert_eq!(
        extended_machine::execute(&vec![insn(0x28, 0, 0, 0), insn(0x95, 0, 0, 0)], &vec![0u8; 4]),
        None
    );
    assert_eq!(
        extended_machine::execute(
            &vec![insn(0xb7, 0, 0, -1), insn(0x95, 0, 0, 0)],
            &vec![0u8; 4]
        ),
        Some(0xffff_ffff)
    );
}

/// A predicate that the test can evaluate by itself.
#[derive(Clone, Debug)]
enum Sample {
    Byte(u32, u8),
    Half(u32, u16),
    Not(Box<Sample>),
    And(Box<Sample>, Box<Sample>),
    Or(Box<Sample>, Box<Sample>),
    Const(bool),
}

impl Sample {
    fn predicate(&self) -> Predicate<Classic> {
        match self {
            Sample::Byte(at, v) => offset_equals_u8(*at, *v),
            Sample::Half(at, v) => bs_filter::idiom::offset_equals_u16(*at, *v),
            Sample::Not(x) => !x.predicate(),
            Sample::And(x, y) => x.predicate() & y.predicate(),
            Sample::Or(x, y) => x.predicate() | y.predicate(),
            Sample::Const(b) => Predicate::constant(*b),
        }
    }

    fn extended_predicate(&self) -> Predicate<Extended> {
        match self {
            Sample::Byte(at, v) => offset_equals_u8(*at, *v),
            Sample::Half(at, v) => bs_filter::idiom::offset_equals_u16(*at, *v),
            Sample::Not(x) => !x.extended_predicate(),
            Sample::And(x, y) => x.extended_predicate() & y.extended_predicate(),
            Sample::Or(x, y) => x.extended_predicate() | y.extended_predicate(),
            Sample::Const(b) => Predicate::constant(*b),
        }
    }

    fn holds(&self, packet: &[u8]) -> bool {
        match self {
            Sample::Byte(at, v) => packet[*at as usize] == *v,
            Sample::Half(at, v) => {
                let at = *at as usize;
                u16::from_be_bytes([packet[at], packet[at + 1]]) == *v
            }
            Sample::Not(x) => !x.holds(packet),
            Sample::And(x, y) => x.holds(packet) && y.holds(packet),
            Sample::Or(x, y) => x.holds(packet) || y.holds(packet),
            Sample::Const(b) => *b,
        }
    }
}

struct Dice(u64);

impl Dice {
    fn roll(&mut self, sides: u64) -> u64 {
        self.0 = self.0.wrapping_mul(6364136223846793005).wrapping_add(1442695040888963407);
        (self.0 >> 33) % sides
    }

    fn sample(&mut self, depth: u32) -> Sample {
        let kind = if depth == 0 { self.roll(2) } else { self.roll(7) };
        match kind {
            0 => Sample::Byte(self.roll(6) as u32, self.roll(2) as u8),
            1 => Sample::Half(self.roll(5) as u32, self.roll(2) as u16),
            2 => Sample::Not(Box::new(self.sample(depth - 1))),
            3 | 4 => Sample::And(Box::new(self.sample(depth - 1)), Box::new(self.sample(depth - 1))),
            5 => Sample::Or(Box::new(self.sample(depth - 1)), Box::new(self.sample(depth - 1))),
            _ => Sample::Const(self.roll(2) == 1),
        }
    }
}

#[test]
fn compiled_programs_pass_what_the_predicate_holds_of() {
    let mut dice = Dice(7);
    for _ in 0..300 {
        let sample = dice.sample(4);
        let program = classic(sample.predicate());
        assert!(targets_inside(&program));
        let wide = extended(sample.extended_predicate());
        for _ in 0..20 {
            let packet: Vec<u8> = (0..6).map(|_| dice.roll(2) as u8).collect();
            let expected = if sample.holds(&packet) { Some(6) } else { Some(0) };
            assert_eq!(execute(&program, &packet), expected, "{:?} on {:?}", sample, packet);
            assert_eq!(extended_machine::execute(&wide, &packet), expected);
        }
    }
}

#[test]
fn lowering_alone_agrees_where_no_constant_is_inside() {
    let mut dice = Dice(11);
    let mut tried = 0;
    while tried < 100 {
        let sample = dice.sample(3);
        if format!("{:?}", sample).contains("Const") {
            continue;
        }
        tried += 1;
        let program = sample.predicate().lower().unwrap().into_inner();
        for _ in 0..20 {
            let packet: Vec<u8> = (0..6).map(|_| dice.roll(2) as u8).collect();
            let expected = if sample.holds(&packet) { Some(6) } else { Some(0) };
            assert_eq!(execute(&program, &packet), expected);
        }
    }
}
