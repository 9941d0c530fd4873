//! What holds of a sender and a receiver together: a message sent directly
//! is read back, a repeated value is taken once, and a frame that fails the
//! receiver's filter changes nothing.

use vstd::prelude::*;
use crate::config::{Config, Delim, send_route};
use crate::packet::{ACK, SYN, frame_fields, lemma_parse_built_packet, packet_bytes};
use crate::receiver::{
    Decoder,
    Step,
    carrier_flags,
    frame_ends,
    frame_value,
    from_expected,
    low_byte,
};
use crate::sender::seqs_carry;

verus! {

/// The decoder and the buffer after each of `frames` is fed in turn, and
/// what followed the last frame fed; feeding stops at the first frame that
/// is not followed by `Step::Continue`.
pub open spec fn run(d: Decoder, frames: Seq<Seq<u8>>, buf: Seq<u8>) -> (Decoder, Step, Seq<u8>)
    decreases frames.len(),
{
    if frames.len() == 0 {
        (d, Step::Continue, buf)
    } else {
        let (d0, s0, b0) = run(d, frames.drop_last(), buf);
        if s0 == Step::Continue {
            let (d1, s1) = d0.step(frames.last());
            (d1, s1, d0.written(frames.last(), b0))
        } else {
            (d0, s0, b0)
        }
    }
}

/// The packets that carry a message in direct mode, one SYN packet for each
/// sequence number.
pub open spec fn direct_frames(sender: Config, seqs: Seq<u32>) -> Seq<Seq<u8>> {
    let (src_ip, dst_ip, src_port, dst_port) = send_route(sender);
    Seq::new(seqs.len(), |i: int| packet_bytes(seqs[i], SYN, src_ip, dst_ip, src_port, dst_port))
}

/// The delimiter packet that a sender emits in protocol mode.
pub open spec fn delimiter_frame(sender: Config, seq: u32) -> Seq<u8> {
    let (src_ip, dst_ip, src_port, dst_port) = send_route(sender);
    packet_bytes(seq, ACK, src_ip, dst_ip, src_port, dst_port)
}

/// Whether a receiver configured as `receiver` reads what a sender
/// configured as `sender` sends in direct mode: the receiver's friend is the
/// sender's origin, and the receiver's origin port is the sender's friend
/// port.
pub open spec fn direct_peers(sender: Config, receiver: Config) -> bool {
    &&& !sender.bounce
    &&& !receiver.bounce
    &&& receiver.friend_ip == sender.origin_ip
    &&& receiver.friend_port == sender.origin_port
    &&& receiver.origin_port == sender.friend_port
    &&& receiver.delimiter == sender.delimiter
}

/// A fresh decoder for a buffer of `capacity` bytes.
pub open spec fn fresh(conf: Config, capacity: usize) -> Decoder {
    Decoder { conf, capacity, prev_val: None, pos: 0 }
}

proof fn lemma_payload_frame(sender: Config, receiver: Config, seq: u32)
    requires
        direct_peers(sender, receiver),
    ensures
        ({
            let (src_ip, dst_ip, src_port, dst_port) = send_route(sender);
            let f = packet_bytes(seq, SYN, src_ip, dst_ip, src_port, dst_port);
            &&& f.len() > 0
            &&& !frame_ends(receiver, f)
            &&& frame_value(receiver, f) == Some(seq)
        }),
{
    let (src_ip, dst_ip, src_port, dst_port) = send_route(sender);
    lemma_parse_built_packet(seq, SYN, src_ip, dst_ip, src_port, dst_port);
    assert(2u8 & 16u8 != 16u8) by (bit_vector);
}

proof fn lemma_delimiter_frame(sender: Config, receiver: Config, seq: u32)
    requires
        direct_peers(sender, receiver),
        receiver.delimiter == Delim::Protocol,
    ensures
        delimiter_frame(sender, seq).len() > 0,
        frame_ends(receiver, delimiter_frame(sender, seq)),
{
    let (src_ip, dst_ip, src_port, dst_port) = send_route(sender);
    lemma_parse_built_packet(seq, ACK, src_ip, dst_ip, src_port, dst_port);
    assert(16u8 & 16u8 == 16u8) by (bit_vector);
}

/// Whether each of `frames` reaches a receiver configured as `receiver` as
/// a carrier of the matching value of `seqs`.
pub open spec fn frames_carry(receiver: Config, frames: Seq<Seq<u8>>, seqs: Seq<u32>) -> bool {
    &&& frames.len() == seqs.len()
    &&& forall|i: int|
        0 <= i < frames.len() ==> #[trigger] frames[i].len() > 0 && !frame_ends(receiver, frames[i])
            && frame_value(receiver, frames[i]) == Some(seqs[i])
}

/// After the first `k` carrier frames, a fresh decoder has taken `k` bytes,
/// the last value it took is the `k`-th, and the buffer starts with the
/// first `k` bytes of the message.
proof fn lemma_run_prefix(
    receiver: Config,
    data: Seq<u8>,
    seqs: Seq<u32>,
    frames: Seq<Seq<u8>>,
    buf: Seq<u8>,
    k: int,
)
    requires
        frames_carry(receiver, frames, seqs),
        seqs_carry(seqs, data),
        0 < buf.len() < usize::MAX,
        0 <= k <= seqs.len(),
        receiver.delimiter == Delim::NoDelim ==> k < buf.len(),
        receiver.delimiter == Delim::Protocol ==> k <= buf.len(),
    ensures
        ({
            let (d, s, b) = run(fresh(receiver, buf.len() as usize), frames.take(k), buf);
            &&& s == Step::Continue
            &&& d == (Decoder {
                conf: receiver,
                capacity: buf.len() as usize,
                prev_val: if k == 0 {
                    None
                } else {
                    Some(seqs[k - 1])
                },
                pos: k as usize,
            })
            &&& b.len() == buf.len()
            &&& forall|i: int| 0 <= i < k ==> b[i] == data[i]
            &&& forall|i: int| k <= i < buf.len() ==> b[i] == buf[i]
        }),
    decreases k,
{
    let d0 = fresh(receiver, buf.len() as usize);
    if k > 0 {
        lemma_run_prefix(receiver, data, seqs, frames, buf, k - 1);
        assert(frames.take(k).drop_last() =~= frames.take(k - 1));
        let (d, s, b) = run(d0, frames.take(k - 1), buf);
        let f = frames.take(k).last();
        assert(f == frames[k - 1]);
        if k > 1 {
            assert(seqs[k - 1] != seqs[k - 2]);
        }
        assert(low_byte(seqs[k - 1]) == data[k - 1]);
        let b1 = d.written(f, b);
        assert(b1 == b.update(k - 1, low_byte(seqs[k - 1])));
    }
}

/// Once a run has stopped, later frames change nothing.
proof fn lemma_run_stops(d: Decoder, frames: Seq<Seq<u8>>, buf: Seq<u8>, k: int, j: int)
    requires
        0 <= k <= j <= frames.len(),
        run(d, frames.take(k), buf).1 != Step::Continue,
    ensures
        run(d, frames.take(j), buf) == run(d, frames.take(k), buf),
    decreases j - k,
{
    if j > k {
        lemma_run_stops(d, frames, buf, k, j - 1);
        assert(frames.take(j).drop_last() =~= frames.take(j - 1));
    }
}

/// A stream of carrier frames for a message, read without delimiter into a
/// buffer of `m` bytes where the message has at least `m`: the receive
/// finishes with `m` bytes, the first `m` of the message.
pub proof fn carried_message_fills_buffer(
    receiver: Config,
    data: Seq<u8>,
    seqs: Seq<u32>,
    frames: Seq<Seq<u8>>,
    buf: Seq<u8>,
)
    requires
        receiver.delimiter == Delim::NoDelim,
        frames_carry(receiver, frames, seqs),
        seqs_carry(seqs, data),
        0 < buf.len() <= data.len(),
        buf.len() < usize::MAX,
    ensures
        ({
            let (d, s, b) = run(fresh(receiver, buf.len() as usize), frames, buf);
            &&& s == Step::Finished(buf.len() as usize)
            &&& b == data.take(buf.len() as int)
        }),
{
    let m = buf.len() as int;
    let d0 = fresh(receiver, buf.len() as usize);
    lemma_run_prefix(receiver, data, seqs, frames, buf, m - 1);
    assert(frames.take(m).drop_last() =~= frames.take(m - 1));
    let f = frames[m - 1];
    assert(frames.take(m).last() == f);
    if m > 1 {
        assert(seqs[m - 1] != seqs[m - 2]);
    }
    assert(low_byte(seqs[m - 1]) == data[m - 1]);
    let (d1, s1, b1) = run(d0, frames.take(m), buf);
    assert(b1 =~= data.take(m));
    lemma_run_stops(d0, frames, buf, m, frames.len() as int);
    assert(frames.take(frames.len() as int) =~= frames);
}

/// A stream of carrier frames for a message and then a frame that ends it,
/// read with the protocol's delimiter into a buffer at least as long as the
/// message: the receive finishes with the whole message at the start of the
/// buffer.
pub proof fn carried_message_ends_at_delimiter(
    receiver: Config,
    data: Seq<u8>,
    seqs: Seq<u32>,
    frames: Seq<Seq<u8>>,
    end: Seq<u8>,
    buf: Seq<u8>,
)
    requires
        receiver.delimiter == Delim::Protocol,
        frames_carry(receiver, frames, seqs),
        seqs_carry(seqs, data),
        end.len() > 0,
        frame_ends(receiver, end),
        data.len() <= buf.len(),
        0 < buf.len() < usize::MAX,
    ensures
        ({
            let (d, s, b) = run(fresh(receiver, buf.len() as usize), frames.push(end), buf);
            &&& s == Step::Finished(data.len() as usize)
            &&& b.take(data.len() as int) == data
            &&& b.subrange(data.len() as int, buf.len() as int) == buf.subrange(
                data.len() as int,
                buf.len() as int,
            )
        }),
{
    let n = data.len() as int;
    lemma_run_prefix(receiver, data, seqs, frames, buf, n);
    assert(frames.take(n) =~= frames);
    assert(frames.push(end).drop_last() =~= frames);
    let (d, s, b) = run(fresh(receiver, buf.len() as usize), frames.push(end), buf);
    assert(b.take(n) =~= data);
    assert(b.subrange(n, buf.len() as int) =~= buf.subrange(n, buf.len() as int));
}

proof fn lemma_direct_frames_carry(sender: Config, receiver: Config, seqs: Seq<u32>)
    requires
        direct_peers(sender, receiver),
    ensures
        frames_carry(receiver, direct_frames(sender, seqs), seqs),
{
    let frames = direct_frames(sender, seqs);
    assert forall|i: int| 0 <= i < frames.len() implies #[trigger] frames[i].len() > 0
        && !frame_ends(receiver, frames[i]) && frame_value(receiver, frames[i]) == Some(
        seqs[i],
    ) by {
        lemma_payload_frame(sender, receiver, seqs[i]);
    }
}

/// A message sent directly without delimiter, read into a buffer of `m`
/// bytes where the message has at least `m`: the receive finishes with `m`
/// bytes, the first `m` of the message.
pub proof fn direct_round_trip_without_delimiter(
    sender: Config,
    receiver: Config,
    data: Seq<u8>,
    seqs: Seq<u32>,
    buf: Seq<u8>,
)
    requires
        direct_peers(sender, receiver),
        receiver.delimiter == Delim::NoDelim,
        seqs_carry(seqs, data),
        0 < buf.len() <= data.len(),
        buf.len() < usize::MAX,
    ensures
        ({
            let (d, s, b) = run(fresh(receiver, buf.len() as usize), direct_frames(sender, seqs), buf);
            &&& s == Step::Finished(buf.len() as usize)
            &&& b == data.take(buf.len() as int)
        }),
{
    lemma_direct_frames_carry(sender, receiver, seqs);
    carried_message_fills_buffer(receiver, data, seqs, direct_frames(sender, seqs), buf);
}

/// A message sent directly with the protocol's delimiter, read into a
/// buffer at least as long as the message: the receive finishes with the
/// whole message at the start of the buffer.
pub proof fn direct_round_trip_with_delimiter(
    sender: Config,
    receiver: Config,
    data: Seq<u8>,
    seqs: Seq<u32>,
    last_seq: u32,
    buf: Seq<u8>,
)
    requires
        direct_peers(sender, receiver),
        receiver.delimiter == Delim::Protocol,
        seqs_carry(seqs, data),
        data.len() <= buf.len(),
        0 < buf.len() < usize::MAX,
    ensures
        ({
            let frames = direct_frames(sender, seqs).push(delimiter_frame(sender, last_seq));
            let (d, s, b) = run(fresh(receiver, buf.len() as usize), frames, buf);
            &&& s == Step::Finished(data.len() as usize)
            &&& b.take(data.len() as int) == data
            &&& b.subrange(data.len() as int, buf.len() as int) == buf.subrange(
                data.len() as int,
                buf.len() as int,
            )
        }),
{
    lemma_direct_frames_carry(sender, receiver, seqs);
    lemma_delimiter_frame(sender, receiver, last_seq);
    carried_message_ends_at_delimiter(
        receiver,
        data,
        seqs,
        direct_frames(sender, seqs),
        delimiter_frame(sender, last_seq),
        buf,
    );
}

/// The acknowledgement number of a SYN-ACK answer to sequence number `seq`:
/// one more, modulo 2^32.
pub open spec fn next_in_sequence(seq: u32) -> u32 {
    if seq == 0xFFFF_FFFFu32 {
        0
    } else {
        (seq + 1) as u32
    }
}

/// Whether `reply` reads as the bouncer's SYN-ACK answer to the packet with
/// sequence number `seq`, sent on to the friend.
pub open spec fn is_bounced_answer(conf: Config, reply: Seq<u8>, seq: u32) -> bool {
    frame_fields(reply) matches Some(t) && t.src_ip == conf.origin_ip && t.src_port
        == conf.origin_port && t.dst_port == conf.friend_port && t.acknowledgement
        == next_in_sequence(seq) && t.flags == SYN | ACK
}

/// In bounce mode, the bouncer's answers to a message's packets, read
/// without delimiter into a buffer of `m` bytes where the message has at
/// least `m`: the receive finishes with the first `m` bytes of the message.
pub proof fn bounced_round_trip_without_delimiter(
    conf: Config,
    data: Seq<u8>,
    seqs: Seq<u32>,
    replies: Seq<Seq<u8>>,
    buf: Seq<u8>,
)
    requires
        conf.bounce,
        conf.delimiter == Delim::NoDelim,
        seqs_carry(seqs, data),
        replies.len() == seqs.len(),
        forall|i: int| 0 <= i < replies.len() ==> is_bounced_answer(conf, #[trigger] replies[i], seqs[i]),
        0 < buf.len() <= data.len(),
        buf.len() < usize::MAX,
    ensures
        ({
            let (d, s, b) = run(fresh(conf, buf.len() as usize), replies, buf);
            &&& s == Step::Finished(buf.len() as usize)
            &&& b == data.take(buf.len() as int)
        }),
{
    assert((2u8 | 16u8) & 4u8 != 4u8) by (bit_vector);
    assert forall|i: int| 0 <= i < replies.len() implies #[trigger] replies[i].len() > 0
        && !frame_ends(conf, replies[i]) && frame_value(conf, replies[i]) == Some(seqs[i]) by {
        assert(is_bounced_answer(conf, replies[i], seqs[i]));
    }
    carried_message_fills_buffer(conf, data, seqs, replies, buf);
}

/// Two frames in a row that carry the same value advance the decoder once:
/// the second neither counts nor writes a byte.
pub proof fn repeated_value_taken_once(d: Decoder, f: Seq<u8>, g: Seq<u8>, buf: Seq<u8>)
    requires
        d.wf(),
        frame_value(d.conf, f) is Some,
        frame_value(d.conf, g) == frame_value(d.conf, f),
        d.step(f).1 == Step::Continue,
    ensures
        d.step(f).0.pos == d.pos + 1 || d.step(f).0.pos == d.pos,
        d.step(f).0.step(g).0.pos == d.step(f).0.pos,
        d.step(f).0.written(g, buf) == buf,
{
    assert(!frame_ends(d.conf, f));
    assert(!frame_ends(d.conf, g));
}

/// A frame from an address or port other than those the receiver expects,
/// or with other flags than a carrier's, never advances the decoder nor
/// writes a byte.
pub proof fn filtered_frame_ignored(d: Decoder, f: Seq<u8>, buf: Seq<u8>)
    requires
        frame_fields(f) matches Some(t) && (!from_expected(d.conf, t) || t.flags != carrier_flags(
            d.conf,
        )),
    ensures
        d.step(f).0.pos == d.pos,
        d.written(f, buf) == buf,
{
}

} // verus!
