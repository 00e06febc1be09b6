//! What the models of the two machines share: how a run ends, how a packet spells a
//! number, and where a program holds an emitted fragment.

use vstd::prelude::*;

verus! {

/// How a run of a program ended, and what it read on the way.
pub struct Exec {
    /// The value returned: the length the packet is cut to, 0 to drop it. `None` where
    /// the run left the program or met an instruction that this model does not cover.
    pub verdict: Option<u32>,
    /// The offsets of the packet loads that ran, in order.
    pub loads: Seq<int>,
}

/// The run `e` after the loads `loads`.
pub open spec fn after(loads: Seq<int>, e: Exec) -> Exec {
    Exec { verdict: e.verdict, loads: loads + e.loads }
}

/// The number that the `n` octets of the packet from `at` on spell, most significant
/// first.
pub open spec fn spelled(packet: Seq<u8>, at: int, n: int) -> int
    decreases n,
{
    if n <= 0 {
        0
    } else {
        spelled(packet, at, n - 1) * 256 + packet[at + n - 1]
    }
}

/// `program` holds the instructions `emitted`, reversed, from position `at` on.
pub open spec fn fragment_at<T>(program: Seq<T>, at: int, emitted: Seq<T>) -> bool {
    &&& 0 <= at
    &&& at + emitted.len() <= program.len()
    &&& forall|j: int|
        0 <= j < emitted.len() ==> program[at + emitted.len() - 1 - j] == #[trigger] emitted[j]
}

/// A program that holds `x` followed by `y`, reversed, holds `y` reversed and behind it
/// `x` reversed.
pub proof fn lemma_fragment_split<T>(program: Seq<T>, at: int, x: Seq<T>, y: Seq<T>)
    requires
        fragment_at(program, at, x + y),
    ensures
        fragment_at(program, at, y),
        fragment_at(program, at + y.len(), x),
{
    let s = x + y;
    assert forall|j: int| 0 <= j < y.len() implies program[at + y.len() - 1 - j] == #[trigger] y[j] by {
        assert(s[x.len() + j] == y[j]);
    }
    assert forall|j: int| 0 <= j < x.len() implies program[at + y.len() + x.len() - 1 - j]
        == #[trigger] x[j] by {
        assert(s[j] == x[j]);
    }
}

/// Reads the `n` octets of `packet` from `at` on as one number, most significant first.
pub fn spell(packet: &Vec<u8>, at: usize, n: usize) -> (r: u32)
    requires
        n == 1 || n == 2 || n == 4,
        at + n <= packet@.len(),
    ensures
        r == spelled(packet@, at as int, n as int),
{
    reveal_with_fuel(spelled, 5);
    let total: usize = packet.len();
    assert(at + n <= total);
    if n == 1 {
        packet[at] as u32
    } else if n == 2 {
        (packet[at] as u32) * 256 + (packet[at + 1] as u32)
    } else {
        (((packet[at] as u32) * 256 + (packet[at + 1] as u32)) * 256 + (packet[at + 2] as u32))
            * 256 + (packet[at + 3] as u32)
    }
}

} // verus!
