//! Numbers of the BPF instruction encodings, of the link and network layers, and of the
//! system interface.

use vstd::prelude::*;

verus! {

// Instruction classes (low three bits of the opcode).
pub const BPF_LD: u16 = 0x00;
pub const BPF_LDX: u16 = 0x01;
pub const BPF_ST: u16 = 0x02;
pub const BPF_STX: u16 = 0x03;
pub const BPF_ALU: u16 = 0x04;
pub const BPF_JMP: u16 = 0x05;
pub const BPF_RET: u16 = 0x06;
pub const BPF_MISC: u16 = 0x07;
pub const BPF_ALU64: u16 = 0x07;

// Operand sizes of loads and stores.
pub const BPF_W: u16 = 0x00;
pub const BPF_H: u16 = 0x08;
pub const BPF_B: u16 = 0x10;
pub const BPF_DW: u16 = 0x18;

// Addressing modes of loads and stores.
pub const BPF_IMM: u16 = 0x00;
pub const BPF_ABS: u16 = 0x20;
pub const BPF_IND: u16 = 0x40;
pub const BPF_MEM: u16 = 0x60;
pub const BPF_LEN: u16 = 0x80;
pub const BPF_MSH: u16 = 0xa0;

// Arithmetic operations.
pub const BPF_ADD: u16 = 0x00;
pub const BPF_SUB: u16 = 0x10;
pub const BPF_MUL: u16 = 0x20;
pub const BPF_DIV: u16 = 0x30;
pub const BPF_OR: u16 = 0x40;
pub const BPF_AND: u16 = 0x50;
pub const BPF_LSH: u16 = 0x60;
pub const BPF_RSH: u16 = 0x70;
pub const BPF_NEG: u16 = 0x80;
pub const BPF_MOD: u16 = 0x90;
pub const BPF_XOR: u16 = 0xa0;
pub const BPF_MOV: u16 = 0xb0;

// Jump conditions.
pub const BPF_JA: u16 = 0x00;
pub const BPF_JEQ: u16 = 0x10;
pub const BPF_JGT: u16 = 0x20;
pub const BPF_JGE: u16 = 0x30;
pub const BPF_JSET: u16 = 0x40;
pub const BPF_JNE: u16 = 0x50;
pub const BPF_JSGT: u16 = 0x60;
pub const BPF_JSGE: u16 = 0x70;
pub const BPF_EXIT: u16 = 0x90;
pub const BPF_JLT: u16 = 0xa0;
pub const BPF_JLE: u16 = 0xb0;
pub const BPF_JSLT: u16 = 0xc0;
pub const BPF_JSLE: u16 = 0xd0;

// Source of the second operand.
pub const BPF_K: u16 = 0x00;
pub const BPF_X: u16 = 0x08;
pub const BPF_A: u16 = 0x10;

// EtherType values.
pub const ETH_P_IP: u16 = 0x0800;
pub const ETH_P_ARP: u16 = 0x0806;
pub const ETH_P_IPV6: u16 = 0x86DD;

// Field positions in an Ethernet frame that carries IPv4.
pub const OFFSET_ETHER_DST: u32 = 0;
pub const OFFSET_ETHER_SRC: u32 = 6;
pub const OFFSET_ETHER_TYPE: u32 = 12;
pub const OFFSET_IP_PROTO: u32 = 23;
pub const OFFSET_IP_SRC: u32 = 26;
pub const OFFSET_IP_DST: u32 = 30;

/// Error number for a value too large for its type.
pub const EOVERFLOW: i32 = 75;

/// Socket option level of the socket layer itself.
pub const SOL_SOCKET: i32 = 1;

/// Socket option that attaches a classic filter.
pub const SO_ATTACH_FILTER: i32 = 26;

/// Socket option that attaches a loaded extended program.
pub const SO_ATTACH_BPF: i32 = 50;

/// Program type of a socket filter in a program-load request.
pub const BPF_PROG_TYPE_SOCKET_FILTER: u32 = 1;

/// Command number of a program-load request.
pub const BPF_PROG_LOAD: u32 = 5;

} // verus!
