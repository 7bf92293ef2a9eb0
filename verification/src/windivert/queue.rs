//! A bounded first-in first-out queue of packets, limited both in packets
//! and in bytes.
use vstd::prelude::*;

use std::collections::VecDeque;

use crate::windivert::handle::WinDivertError;
use crate::windivert::packet::WinDivertPacket;

verus! {

const DEFAULT_MAX_PACKETS: usize = 4096;

const DEFAULT_MAX_BYTES: usize = 67108864;

/// The total length of the packets of `s`.
pub open spec fn bytes_of(s: Seq<WinDivertPacket>) -> int
    decreases s.len(),
{
    if s.len() == 0 {
        0
    } else {
        bytes_of(s.drop_last()) + s.last().spec_data().len()
    }
}

/// The bytes of a sequence are those of its first packet and of the rest.
pub proof fn lemma_bytes_of_first(s: Seq<WinDivertPacket>)
    requires
        s.len() > 0,
    ensures
        bytes_of(s) == s[0].spec_data().len() + bytes_of(s.drop_first()),
    decreases s.len(),
{
    if s.len() > 1 {
        lemma_bytes_of_first(s.drop_last());
        assert(s.drop_last().drop_first() =~= s.drop_first().drop_last());
        assert(s.drop_first().last() == s.last());
        assert(s.drop_last()[0] == s[0]);
        assert(bytes_of(s) == bytes_of(s.drop_last()) + s.last().spec_data().len());
        assert(bytes_of(s.drop_first()) == bytes_of(s.drop_first().drop_last())
            + s.drop_first().last().spec_data().len());
    } else {
        assert(s.drop_first().len() == 0);
        assert(s.drop_last().len() == 0);
        assert(s.last() == s[0]);
        assert(bytes_of(s.drop_last()) == 0);
        assert(bytes_of(s.drop_first()) == 0);
        assert(bytes_of(s) == bytes_of(s.drop_last()) + s.last().spec_data().len());
    }
}

pub proof fn lemma_bytes_of_nonneg(s: Seq<WinDivertPacket>)
    ensures
        bytes_of(s) >= 0,
    decreases s.len(),
{
    if s.len() > 0 {
        lemma_bytes_of_nonneg(s.drop_last());
    }
}

/// Packets in arrival order. At most `max_packets` packets and
/// `max_bytes` bytes are held; `current_bytes` is always their total.
pub struct WinDivertQueue {
    packets: VecDeque<WinDivertPacket>,
    max_packets: usize,
    max_bytes: usize,
    current_bytes: usize,
}

impl Default for WinDivertQueue {
    fn default() -> (r: Self)
        ensures
            r.spec_packets().len() == 0,
            r.spec_max_packets() == 4096,
            r.spec_max_bytes() == 67108864,
    {
        Self::new()
    }
}

impl WinDivertQueue {
    #[verifier::type_invariant]
    closed spec fn inv(self) -> bool {
        &&& self.current_bytes == bytes_of(self.packets@)
        &&& self.packets@.len() <= self.max_packets
        &&& self.current_bytes <= self.max_bytes
        &&& self.max_packets >= 1
        &&& self.max_bytes >= 1
    }

    /// The queued packets, oldest first.
    pub closed spec fn spec_packets(self) -> Seq<WinDivertPacket> {
        self.packets@
    }

    pub closed spec fn spec_max_packets(self) -> usize {
        self.max_packets
    }

    pub closed spec fn spec_max_bytes(self) -> usize {
        self.max_bytes
    }

    /// The limits hold and the byte count is the packets' total.
    pub open spec fn within_limits(self) -> bool {
        &&& self.spec_packets().len() <= self.spec_max_packets()
        &&& bytes_of(self.spec_packets()) <= self.spec_max_bytes()
    }

    /// An empty queue of 4096 packets and 64 MiB.
    pub fn new() -> (r: Self)
        ensures
            r.spec_packets().len() == 0,
            r.spec_max_packets() == 4096,
            r.spec_max_bytes() == 67108864,
    {
        Self::with_limits(DEFAULT_MAX_PACKETS, DEFAULT_MAX_BYTES)
    }

    /// An empty queue with the given limits, each raised to at least 1.
    pub fn with_limits(max_packets: usize, max_bytes: usize) -> (r: Self)
        ensures
            r.spec_packets().len() == 0,
            r.spec_max_packets() == (if max_packets >= 1 {
                max_packets
            } else {
                1
            }),
            r.spec_max_bytes() == (if max_bytes >= 1 {
                max_bytes
            } else {
                1
            }),
    {
        let max_packets = if max_packets >= 1 {
            max_packets
        } else {
            1
        };
        let max_bytes = if max_bytes >= 1 {
            max_bytes
        } else {
            1
        };
        WinDivertQueue { packets: VecDeque::new(), max_packets, max_bytes, current_bytes: 0 }
    }

    /// Appends a packet. An empty packet is invalid, one above the byte
    /// limit too large; the queue is full when it holds the most packets
    /// or the packet would pass the byte limit.
    pub fn push(&mut self, packet: WinDivertPacket) -> (r: Result<(), WinDivertError>)
        ensures
            final(self).spec_max_packets() == old(self).spec_max_packets(),
            final(self).spec_max_bytes() == old(self).spec_max_bytes(),
            ({
                let size = packet.spec_data().len();
                let q = old(self).spec_packets();
                &&& size == 0 ==> r == Err::<(), WinDivertError>(WinDivertError::InvalidPacket)
                &&& size > 0 && size > old(self).spec_max_bytes() ==> r == Err::<(), WinDivertError>(
                    WinDivertError::PacketTooLarge,
                )
                &&& size > 0 && size <= old(self).spec_max_bytes() && (q.len() >= old(self).spec_max_packets() || bytes_of(q) + size > old(self).spec_max_bytes()) ==> r
                    == Err::<(), WinDivertError>(WinDivertError::QueueFull)
                &&& r is Ok == (size > 0 && q.len() < old(self).spec_max_packets() && bytes_of(q)
                    + size <= old(self).spec_max_bytes())
                &&& r is Ok ==> final(self).spec_packets() == q.push(packet)
                &&& r is Err ==> final(self).spec_packets() == q
            }),
    {
        proof {
            use_type_invariant(&*self);
        }
        let size = packet.len();
        if size == 0 {
            return Err(WinDivertError::InvalidPacket);
        }
        if size > self.max_bytes {
            return Err(WinDivertError::PacketTooLarge);
        }
        if self.packets.len() >= self.max_packets {
            return Err(WinDivertError::QueueFull);
        }
        let total = match self.current_bytes.checked_add(size) {
            Some(t) => t,
            None => {
                return Err(WinDivertError::QueueFull);
            },
        };
        if total > self.max_bytes {
            return Err(WinDivertError::QueueFull);
        }
        let ghost q = self.packets@;
        let ghost p = packet;
        let mut taken = WinDivertQueue::with_limits(self.max_packets, self.max_bytes);
        std::mem::swap(self, &mut taken);
        let WinDivertQueue { mut packets, max_packets, max_bytes, current_bytes: _ } = taken;
        packets.push_back(packet);
        proof {
            assert(packets@.drop_last() =~= q);
            assert(packets@.last() == p);
        }
        *self = WinDivertQueue { packets, max_packets, max_bytes, current_bytes: total };
        Ok(())
    }

    /// Removes and hands back the oldest packet.
    pub fn pop(&mut self) -> (r: Result<WinDivertPacket, WinDivertError>)
        ensures
            final(self).spec_max_packets() == old(self).spec_max_packets(),
            final(self).spec_max_bytes() == old(self).spec_max_bytes(),
            old(self).spec_packets().len() == 0 ==> r == Err::<WinDivertPacket, WinDivertError>(
                WinDivertError::QueueEmpty,
            ) && final(self).spec_packets() == old(self).spec_packets(),
            old(self).spec_packets().len() > 0 ==> r == Ok::<WinDivertPacket, WinDivertError>(
                old(self).spec_packets()[0],
            ) && final(self).spec_packets() == old(self).spec_packets().drop_first(),
    {
        proof {
            use_type_invariant(&*self);
        }
        if self.packets.len() == 0 {
            return Err(WinDivertError::QueueEmpty);
        }
        let ghost q = self.packets@;
        let mut taken = WinDivertQueue::with_limits(self.max_packets, self.max_bytes);
        std::mem::swap(self, &mut taken);
        let WinDivertQueue { mut packets, max_packets, max_bytes, current_bytes } = taken;
        let popped = packets.pop_front();
        let packet = match popped {
            Some(p) => p,
            None => {
                *self = WinDivertQueue { packets, max_packets, max_bytes, current_bytes: 0 };
                return Err(WinDivertError::QueueEmpty);
            },
        };
        proof {
            lemma_bytes_of_first(q);
            lemma_bytes_of_nonneg(q.drop_first());
            assert(packets@ =~= q.drop_first());
        }
        let remaining = current_bytes - packet.len();
        *self = WinDivertQueue { packets, max_packets, max_bytes, current_bytes: remaining };
        Ok(packet)
    }

    /// `pop`, with an empty queue giving `None`.
    pub fn try_pop(&mut self) -> (r: Option<WinDivertPacket>)
        ensures
            final(self).spec_max_packets() == old(self).spec_max_packets(),
            final(self).spec_max_bytes() == old(self).spec_max_bytes(),
            old(self).spec_packets().len() == 0 ==> r is None && final(self).spec_packets() == old(self).spec_packets(),
            old(self).spec_packets().len() > 0 ==> r == Some(old(self).spec_packets()[0]) && final(self).spec_packets() == old(self).spec_packets().drop_first(),
    {
        match self.pop() {
            Ok(p) => Some(p),
            Err(_) => None,
        }
    }

    pub fn len(&self) -> (r: usize)
        ensures
            r == self.spec_packets().len(),
            self.within_limits(),
    {
        proof {
            use_type_invariant(self);
        }
        self.packets.len()
    }

    pub fn is_empty(&self) -> (r: bool)
        ensures
            r == (self.spec_packets().len() == 0),
    {
        self.packets.len() == 0
    }

    /// At the packet limit, or with the byte limit reached.
    pub fn is_full(&self) -> (r: bool)
        ensures
            r == (self.spec_packets().len() >= self.spec_max_packets() || bytes_of(
                self.spec_packets(),
            ) >= self.spec_max_bytes()),
    {
        proof {
            use_type_invariant(self);
        }
        self.packets.len() >= self.max_packets || self.current_bytes >= self.max_bytes
    }

    /// The total length of the queued packets; a queue never holds more
    /// packets or bytes than its limits.
    pub fn current_bytes(&self) -> (r: usize)
        ensures
            r == bytes_of(self.spec_packets()),
            self.within_limits(),
    {
        proof {
            use_type_invariant(self);
        }
        self.current_bytes
    }

    pub fn max_packets(&self) -> (r: usize)
        ensures
            r == self.spec_max_packets(),
    {
        self.max_packets
    }

    pub fn max_bytes(&self) -> (r: usize)
        ensures
            r == self.spec_max_bytes(),
    {
        self.max_bytes
    }

    pub fn clear(&mut self)
        ensures
            final(self).spec_packets().len() == 0,
            final(self).spec_max_packets() == old(self).spec_max_packets(),
            final(self).spec_max_bytes() == old(self).spec_max_bytes(),
    {
        proof {
            use_type_invariant(&*self);
        }
        *self = WinDivertQueue::with_limits(self.max_packets, self.max_bytes);
    }
}

} // verus!
