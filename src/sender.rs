//! The sending side: the sequence numbers that carry the bytes, the packets
//! of a message in order, and when progress is worth reporting.

use vstd::prelude::*;
use crate::config::{Config, CovertError, Delim, Sender, send_route};
use crate::packet::{ACK, PACKET_LEN, SYN, create_packet, packet_bytes};
use crate::receiver::low_byte;

verus! {

/// Relies on rand::random for a value drawn from the thread-local
/// generator; nothing is promised of the value.
pub assume_specification<T>[ rand::random::<T> ]() -> (r: T)
    where
        rand::distr::StandardUniform: rand::distr::Distribution<T>,
;

/// How many times a sequence number is drawn before one is derived from the
/// previous one instead.
pub const MAX_DRAWS: u32 = 64;

/// The sequence number that carries `byte` in its low eight bits and the
/// upper 24 bits of `draw` above them.
pub open spec fn seq_from_draw(byte: u8, draw: u32) -> u32 {
    (draw & 0xFFFF_FF00u32) | (byte as u32)
}

/// Puts `byte` in the low eight bits of `draw`.
pub fn seq_with_byte(byte: u8, draw: u32) -> (r: u32)
    ensures
        r == seq_from_draw(byte, draw),
        low_byte(r) == byte,
{
    assert((((draw & 0xFFFF_FF00u32) | (byte as u32)) & 0xFFu32) as u8 == byte) by (bit_vector);
    (draw & 0xFFFF_FF00u32) | (byte as u32)
}

/// A random sequence number that carries `byte` and differs from `prev`, so
/// that a receiver can tell a new packet from a repeated one even when the
/// byte repeats. Draws until the number differs from `prev`; should
/// `MAX_DRAWS` draws in a row all give `prev`, it flips bit 8 of `prev`.
pub fn next_seq(byte: u8, prev: u32) -> (r: u32)
    ensures
        low_byte(r) == byte,
        r != prev,
{
    let mut draws: u32 = 0;
    while draws < MAX_DRAWS
        invariant
            draws <= MAX_DRAWS,
        decreases MAX_DRAWS - draws,
    {
        let s = seq_with_byte(byte, rand::random::<u32>());
        if s != prev {
            return s;
        }
        draws = draws + 1;
    }
    assert(((prev ^ 0x100u32) & 0xFFFF_FF00u32) | (byte as u32) != prev) by (bit_vector);
    seq_with_byte(byte, prev ^ 0x100u32)
}

/// The whole percentage of a message of `total` bytes that `count` bytes make.
pub open spec fn percent(count: int, total: int) -> int {
    100 * count / total
}

/// The whole percentage of a message of `total` bytes that `count` bytes make.
pub fn progress_percent(count: usize, total: usize) -> (r: u8)
    requires
        0 < total,
        count <= total,
    ensures
        r as int == percent(count as int, total as int),
{
    let c = count as u128;
    let t = total as u128;
    proof {
        let ci = c as int;
        let ti = t as int;
        assert(100 * ci <= 100 * ti) by (nonlinear_arith)
            requires
                ci <= ti,
        ;
        vstd::arithmetic::div_mod::lemma_div_is_ordered(100 * ci, 100 * ti, ti);
        vstd::arithmetic::div_mod::lemma_div_by_multiple(100, ti);
        assert(100 * ti == ti * 100);
    }
    (100 * c / t) as u8
}

/// One message on its way out: the packets to emit, in order, and the
/// count of those the network has taken.
pub struct SendSession {
    /// The message.
    pub data: Vec<u8>,
    /// Source address, destination address, source port, destination port.
    pub route: (u32, u32, u16, u16),
    pub delimiter: Delim,
    /// How many packets carrying a byte have been built.
    pub built: usize,
    /// The sequence number of the last packet built that carries a byte.
    pub curr_seq: u32,
    /// How many packets carrying a byte the network has taken.
    pub send_count: usize,
    /// The percentage of the message last reported.
    pub send_percent: u8,
    /// Whether the delimiter packet has been built.
    pub terminated: bool,
    /// The sequence numbers of the packets built that carry a byte.
    pub seqs: Ghost<Seq<u32>>,
}

/// Whether `seqs` carry `data`, one byte each in the low eight bits, with
/// no two neighbours equal.
pub open spec fn seqs_carry(seqs: Seq<u32>, data: Seq<u8>) -> bool {
    &&& seqs.len() == data.len()
    &&& forall|i: int| 0 <= i < seqs.len() ==> #[trigger] low_byte(seqs[i]) == data[i]
    &&& forall|i: int| 0 < i < seqs.len() ==> #[trigger] seqs[i] != seqs[i - 1]
}

impl SendSession {
    pub open spec fn wf(self) -> bool {
        &&& self.built <= self.data@.len()
        &&& self.send_count <= self.built
        &&& seqs_carry(self.seqs@, self.data@.take(self.built as int))
        &&& self.built > 0 ==> self.curr_seq == self.seqs@.last()
        &&& self.terminated ==> self.built == self.data@.len() && self.delimiter == Delim::Protocol
        &&& self.data@.len() > 0 ==> self.send_percent as int == percent(
            self.send_count as int,
            self.data@.len() as int,
        )
        &&& self.data@.len() == 0 ==> self.send_percent == 0
    }

    /// The next packet to emit: one SYN packet for each byte of the message,
    /// then in protocol mode one ACK packet with a random sequence number;
    /// `None` once all are built. Each packet must have been taken by the
    /// network before the next is asked for.
    pub fn next_packet(&mut self) -> (r: Option<Vec<u8>>)
        requires
            old(self).wf(),
            old(self).send_count == old(self).built,
        ensures
            final(self).wf(),
            final(self).data == old(self).data,
            final(self).route == old(self).route,
            final(self).delimiter == old(self).delimiter,
            final(self).send_count == old(self).send_count,
            final(self).send_percent == old(self).send_percent,
            ({
                let (src_ip, dst_ip, src_port, dst_port) = old(self).route;
                if old(self).built < old(self).data@.len() {
                    &&& final(self).built == old(self).built + 1
                    &&& final(self).seqs@ == old(self).seqs@.push(final(self).curr_seq)
                    &&& low_byte(final(self).curr_seq) == old(self).data@[old(self).built as int]
                    &&& final(self).curr_seq != old(self).curr_seq
                    &&& !final(self).terminated
                    &&& r matches Some(p) && p@ == packet_bytes(
                        final(self).curr_seq,
                        SYN,
                        src_ip,
                        dst_ip,
                        src_port,
                        dst_port,
                    )
                } else if old(self).delimiter == Delim::Protocol && !old(self).terminated {
                    &&& *final(self) == (SendSession { terminated: true, ..*old(self) })
                    &&& r matches Some(p) && exists|s: u32|
                        p@ == #[trigger] packet_bytes(s, ACK, src_ip, dst_ip, src_port, dst_port)
                } else {
                    &&& r is None
                    &&& *final(self) == *old(self)
                }
            }),
    {
        let (src_ip, dst_ip, src_port, dst_port) = self.route;
        if self.built < self.data.len() {
            let byte = self.data[self.built];
            let seq = next_seq(byte, self.curr_seq);
            proof {
                let old_seqs = self.seqs@;
                let new_seqs = old_seqs.push(seq);
                let data = self.data@.take(self.built + 1);
                assert(data =~= self.data@.take(self.built as int).push(byte));
                assert forall|i: int| 0 <= i < new_seqs.len() implies #[trigger] low_byte(new_seqs[i])
                    == data[i] by {
                    if i < old_seqs.len() {
                        assert(low_byte(old_seqs[i]) == self.data@.take(self.built as int)[i]);
                    }
                }
                assert forall|i: int| 0 < i < new_seqs.len() implies #[trigger] new_seqs[i]
                    != new_seqs[i - 1] by {
                    if i < old_seqs.len() {
                        assert(old_seqs[i] != old_seqs[i - 1]);
                    }
                }
                self.seqs = Ghost(new_seqs);
            }
            self.curr_seq = seq;
            self.built = self.built + 1;
            Some(create_packet(seq, SYN, src_ip, dst_ip, src_port, dst_port))
        } else if self.delimiter == Delim::Protocol && !self.terminated {
            self.terminated = true;
            let s = rand::random::<u32>();
            let p = create_packet(s, ACK, src_ip, dst_ip, src_port, dst_port);
            Some(p)
        } else {
            None
        }
    }

    /// Whether a pause follows the packet last built: one follows each
    /// packet that carries a byte, none follows the delimiter packet.
    pub fn pause_follows(&self) -> (r: bool)
        ensures
            r == !self.terminated,
    {
        !self.terminated
    }

    /// Records what the network took of the packet last built: `sent` bytes.
    /// Fewer or more than the packet holds fail the send. For a packet that
    /// carries a byte, returns the count of such packets sent when the whole
    /// percentage of the message they make has risen: the progress to report.
    pub fn packet_sent(&mut self, sent: usize) -> (r: Result<Option<usize>, CovertError>)
        requires
            old(self).wf(),
            old(self).terminated || old(self).send_count < old(self).built,
        ensures
            final(self).wf(),
            sent != PACKET_LEN ==> r == Err::<Option<usize>, CovertError>(
                CovertError::InsufficientBytesSize,
            ) && *final(self) == *old(self),
            sent == PACKET_LEN && old(self).terminated ==> r == Ok::<Option<usize>, CovertError>(
                None,
            ) && *final(self) == *old(self),
            sent == PACKET_LEN && !old(self).terminated ==> {
                let count = old(self).send_count + 1;
                let pct = percent(count, old(self).data@.len() as int);
                &&& *final(self) == (SendSession {
                    send_count: count as usize,
                    send_percent: pct as u8,
                    ..*old(self)
                })
                &&& r == if pct > old(self).send_percent {
                    Ok::<Option<usize>, CovertError>(Some(count as usize))
                } else {
                    Ok(None)
                }
            },
    {
        if sent != PACKET_LEN {
            return Err(CovertError::InsufficientBytesSize);
        }
        if self.terminated {
            return Ok(None);
        }
        self.send_count = self.send_count + 1;
        let pct = progress_percent(self.send_count, self.data.len());
        let report = if pct > self.send_percent {
            Some(self.send_count)
        } else {
            None
        };
        self.send_percent = pct;
        Ok(report)
    }
}

impl Sender {
    /// Starts sending `data`: no packet is built yet, and the sequence number
    /// that the first must differ from is drawn at random.
    pub fn begin(&self, data: &[u8]) -> (r: SendSession)
        ensures
            r.wf(),
            r.data@ == data@,
            r.route == send_route(self.conf),
            r.delimiter == self.conf.delimiter,
            r.built == 0,
            r.send_count == 0,
            !r.terminated,
    {
        let mut v: Vec<u8> = Vec::new();
        let mut i: usize = 0;
        while i < data.len()
            invariant
                i <= data@.len(),
                v@ == data@.take(i as int),
            decreases data@.len() - i,
        {
            v.push(data[i]);
            i = i + 1;
            assert(v@ =~= data@.take(i as int));
        }
        assert(v@ =~= data@);
        let s = SendSession {
            data: v,
            route: self.conf.route(),
            delimiter: self.conf.delimiter,
            built: 0,
            curr_seq: rand::random::<u32>(),
            send_count: 0,
            send_percent: 0,
            terminated: false,
            seqs: Ghost(Seq::empty()),
        };
        assert(s.data@.take(0) =~= Seq::<u8>::empty());
        proof {
            if s.data@.len() > 0 {
                assert(percent(0, s.data@.len() as int) == 0);
            }
        }
        s
    }
}

} // verus!
