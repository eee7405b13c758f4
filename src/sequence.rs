//! Packet sequencing on the unreliable transport: ids for outgoing packets
//! and loss and duplicate detection for incoming ones.

use vstd::prelude::*;

verus! {

/// What the receiver does with a packet, given its sequence id.
#[derive(Clone, Copy, Debug, PartialEq, Eq, Structural)]
pub enum Verdict {
    /// The id is below the expected one: a duplicate or a late packet.
    Stale,
    /// The packet is processed; `lost` ids were skipped before it.
    Accept { lost: u64 },
}

/// Per-peer packet numbering: ids handed out to outgoing packets and the
/// id expected next from the network.
#[derive(Clone, Copy, Debug)]
pub struct Sequencer {
    next_id: u64,
    expected: u64,
}

impl Sequencer {
    pub closed spec fn next_id_spec(&self) -> u64 {
        self.next_id
    }

    pub closed spec fn expected_spec(&self) -> u64 {
        self.expected
    }

    /// The verdict on a packet with id `id` when `expected` is awaited.
    pub open spec fn verdict_of(expected: u64, id: u64) -> Verdict {
        if id < expected {
            Verdict::Stale
        } else {
            Verdict::Accept { lost: (id - expected) as u64 }
        }
    }

    /// The id awaited after a packet with id `id` when `expected` was awaited:
    /// one past the packet, or unchanged for a stale one. At the top of the id
    /// range the counter stays at `u64::MAX`.
    pub open spec fn expected_after(expected: u64, id: u64) -> u64 {
        if id < expected {
            expected
        } else if id == u64::MAX {
            u64::MAX
        } else {
            (id + 1) as u64
        }
    }

    pub fn new() -> (r: Sequencer)
        ensures
            r.next_id_spec() == 0,
            r.expected_spec() == 0,
    {
        Sequencer { next_id: 0, expected: 0 }
    }

    /// A sequencer that awaits `expected` next and numbers outgoing packets
    /// from zero.
    pub fn expecting(expected: u64) -> (r: Sequencer)
        ensures
            r.next_id_spec() == 0,
            r.expected_spec() == expected,
    {
        Sequencer { next_id: 0, expected }
    }

    pub fn expected(&self) -> (r: u64)
        ensures
            r == self.expected_spec(),
    {
        self.expected
    }

    /// The id for the next outgoing packet; ids increase by one per packet.
    /// `None` once every id has been used.
    pub fn next_outgoing(&mut self) -> (r: Option<u64>)
        ensures
            old(self).next_id_spec() < u64::MAX ==> r == Some(old(self).next_id_spec())
                && final(self).next_id_spec() == old(self).next_id_spec() + 1,
            old(self).next_id_spec() == u64::MAX ==> r.is_none() && *final(self) == *old(self),
            final(self).expected_spec() == old(self).expected_spec(),
    {
        if self.next_id == u64::MAX {
            None
        } else {
            let id = self.next_id;
            self.next_id = id + 1;
            Some(id)
        }
    }

    /// Checks an incoming packet's id against the expected one: a lower id is
    /// discarded without advancing; an equal or higher id is processed, the
    /// gap reported as lost, and the expected id moves past it.
    pub fn accept(&mut self, id: u64) -> (r: Verdict)
        ensures
            r == Self::verdict_of(old(self).expected_spec(), id),
            final(self).expected_spec() == Self::expected_after(old(self).expected_spec(), id),
            final(self).next_id_spec() == old(self).next_id_spec(),
    {
        if id < self.expected {
            Verdict::Stale
        } else {
            let lost = id - self.expected;
            self.expected = if id == u64::MAX { u64::MAX } else { id + 1 };
            Verdict::Accept { lost }
        }
    }
}

/// `256^k`.
pub open spec fn base(k: nat) -> nat
    decreases k,
{
    if k == 0 {
        1
    } else {
        256 * base((k - 1) as nat)
    }
}

/// The number that the bytes `b` write, least significant first.
pub open spec fn le_value(b: Seq<u8>) -> nat
    decreases b.len(),
{
    if b.len() == 0 {
        0
    } else {
        b[0] as nat + 256 * le_value(b.drop_first())
    }
}

/// The `k` bytes that write `v` (modulo `256^k`), least significant first.
pub open spec fn le_bytes(v: nat, k: nat) -> Seq<u8>
    decreases k,
{
    if k == 0 {
        Seq::empty()
    } else {
        seq![(v % 256) as u8] + le_bytes(v / 256, (k - 1) as nat)
    }
}

/// The length of a datagram's header: its sequence id.
pub const HEADER_LEN: usize = 8;

/// A datagram: the sequence id in eight bytes, least significant first,
/// then the payload.
pub fn frame(id: u64, payload: &Vec<u8>) -> (r: Vec<u8>)
    ensures
        r@ == le_bytes(id as nat, 8) + payload@,
{
    let mut out: Vec<u8> = Vec::new();
    let mut x: u64 = id;
    let mut i: usize = 0;
    while i < HEADER_LEN
        invariant
            i <= 8,
            out@ + le_bytes(x as nat, (8 - i) as nat) == le_bytes(id as nat, 8),
        decreases 8 - i,
    {
        let ghost before = out@;
        assert(le_bytes(x as nat, (8 - i) as nat) == seq![(x % 256) as u8] + le_bytes(
            (x / 256) as nat,
            (8 - i - 1) as nat,
        ));
        out.push((x % 256) as u8);
        assert(out@ + le_bytes((x / 256) as nat, (8 - i - 1) as nat) =~= before + (seq![(x % 256) as u8]
            + le_bytes((x / 256) as nat, (8 - i - 1) as nat)));
        x = x / 256;
        i = i + 1;
    }
    assert(out@ =~= le_bytes(id as nat, 8));
    let mut j: usize = 0;
    while j < payload.len()
        invariant
            j <= payload@.len(),
            out@ == le_bytes(id as nat, 8) + payload@.take(j as int),
        decreases payload@.len() - j,
    {
        out.push(payload[j]);
        j = j + 1;
        assert(out@ =~= le_bytes(id as nat, 8) + payload@.take(j as int));
    }
    assert(payload@.take(j as int) =~= payload@);
    out
}

proof fn lemma_le_value_bound(b: Seq<u8>)
    ensures
        le_value(b) < base(b.len()),
    decreases b.len(),
{
    if b.len() > 0 {
        lemma_le_value_bound(b.drop_first());
        let r = le_value(b.drop_first());
        let k = base((b.len() - 1) as nat);
        assert(b[0] as nat + 256 * r < 256 * k) by (nonlinear_arith)
            requires
                r < k,
                b[0] < 256,
        ;
    }
}

/// The sequence id and the payload of a datagram; none when it is shorter
/// than its header.
pub fn unframe(packet: &Vec<u8>) -> (r: Option<(u64, Vec<u8>)>)
    ensures
        r is None <==> packet@.len() < 8,
        r matches Some((id, payload)) ==> id as nat == le_value(packet@.take(8)) && payload@
            == packet@.skip(8),
{
    if packet.len() < HEADER_LEN {
        return None;
    }
    let mut v: u64 = 0;
    let mut i: usize = HEADER_LEN;
    proof {
        reveal_with_fuel(base, 9);
    }
    while i > 0
        invariant
            i <= 8,
            packet@.len() >= 8,
            v as nat == le_value(packet@.subrange(i as int, 8)),
            base(8) == 0x1_0000_0000_0000_0000,
        decreases i,
    {
        let ghost tail = packet@.subrange(i as int, 8);
        proof {
            lemma_le_value_bound(tail);
            assert(base((8 - i) as nat) * 256 <= base(8)) by {
                lemma_base_grows((8 - i) as nat, 8);
            }
            assert(v * 256 + 255 < 0x1_0000_0000_0000_0000) by (nonlinear_arith)
                requires
                    v < base((8 - i) as nat),
                    base((8 - i) as nat) * 256 <= 0x1_0000_0000_0000_0000,
            ;
            assert(packet@.subrange(i - 1, 8).drop_first() =~= tail);
        }
        v = v * 256 + packet[i - 1] as u64;
        i = i - 1;
    }
    assert(packet@.subrange(0, 8) =~= packet@.take(8));
    let mut payload: Vec<u8> = Vec::new();
    let mut j: usize = HEADER_LEN;
    while j < packet.len()
        invariant
            8 <= j <= packet@.len(),
            payload@ == packet@.subrange(8, j as int),
        decreases packet@.len() - j,
    {
        payload.push(packet[j]);
        j = j + 1;
        assert(payload@ =~= packet@.subrange(8, j as int));
    }
    assert(packet@.subrange(8, j as int) =~= packet@.skip(8));
    Some((v, payload))
}

proof fn lemma_base_grows(k: nat, n: nat)
    requires
        k < n,
    ensures
        base(k) * 256 <= base(n),
    decreases n,
{
    if k + 1 < n {
        lemma_base_grows(k, (n - 1) as nat);
        assert(base((n - 1) as nat) <= base(n)) by (nonlinear_arith)
            requires
                base(n) == 256 * base((n - 1) as nat),
        ;
    }
}

/// Reading back the bytes that write a number gives the number, when it
/// fits in them.
pub proof fn lemma_le_round_trip(v: nat, k: nat)
    requires
        v < base(k),
    ensures
        le_value(le_bytes(v, k)) == v,
        le_bytes(v, k).len() == k,
    decreases k,
{
    if k > 0 {
        let q = v / 256;
        assert(q < base((k - 1) as nat)) by (nonlinear_arith)
            requires
                v < 256 * base((k - 1) as nat),
                q == v / 256,
        ;
        lemma_le_round_trip(q, (k - 1) as nat);
        let b = le_bytes(v, k);
        assert(b.drop_first() =~= le_bytes(q, (k - 1) as nat));
        assert(v == (v % 256) + 256 * q) by (nonlinear_arith)
            requires
                q == v / 256,
        ;
    }
}

/// Unframing a framed datagram gives back its sequence id and its payload.
pub proof fn lemma_frame_round_trip(id: u64, payload: Seq<u8>)
    ensures
        (le_bytes(id as nat, 8) + payload).take(8) == le_bytes(id as nat, 8),
        (le_bytes(id as nat, 8) + payload).skip(8) == payload,
        le_value((le_bytes(id as nat, 8) + payload).take(8)) == id,
{
    reveal_with_fuel(base, 9);
    lemma_le_round_trip(id as nat, 8);
    let f = le_bytes(id as nat, 8) + payload;
    assert(f.take(8) =~= le_bytes(id as nat, 8));
    assert(f.skip(8) =~= payload);
}

} // verus!
