//! The receiving side: which frames carry a byte of the message, how bytes
//! are taken out of them, and when a message ends.

use vstd::prelude::*;
use crate::config::{Config, CovertError, Delim, Receiver, receive_filter};
use crate::packet::{ACK, RST, SYN, TcpFields, frame_fields, parse_frame};

verus! {

/// What follows a frame fed to a decoder.
#[derive(Clone, Copy, Debug, PartialEq, Eq, Structural)]
pub enum Step {
    /// The message goes on: read another frame.
    Continue,
    /// The message is complete and holds this many bytes.
    Finished(usize),
    /// The receive fails.
    Failed(CovertError),
}

/// The state of one receive: the last value accepted, for duplicate
/// suppression, and the number of bytes decoded so far.
#[derive(Clone, Copy)]
pub struct Decoder {
    pub conf: Config,
    /// The length of the caller's buffer.
    pub capacity: usize,
    /// The value carried by the last accepted frame.
    pub prev_val: Option<u32>,
    /// The number of bytes decoded so far; in protocol mode it may pass the
    /// buffer's length by one, which fails the receive.
    pub pos: usize,
}

/// The flags of a frame that carries a byte: SYN from the sender, or SYN-ACK
/// from the bouncer.
pub open spec fn carrier_flags(c: Config) -> u8 {
    if c.bounce {
        SYN | ACK
    } else {
        SYN
    }
}

/// Whether a frame with these flags ends the message: only in protocol mode,
/// by the ACK bit from the sender, or in bounce mode by the RST bit of the
/// bouncer's reply.
pub open spec fn is_delimiter(c: Config, flags: u8) -> bool {
    c.delimiter == Delim::Protocol && if c.bounce {
        flags & RST == RST
    } else {
        flags & ACK == ACK
    }
}

/// The value a carrier frame holds: its sequence number, or in bounce mode
/// its acknowledgement number less one, modulo 2^32.
pub open spec fn carried_value(c: Config, t: TcpFields) -> u32 {
    if c.bounce {
        if t.acknowledgement == 0 {
            0xFFFF_FFFFu32
        } else {
            (t.acknowledgement - 1) as u32
        }
    } else {
        t.sequence
    }
}

/// The byte that a carried value holds: its low eight bits.
pub open spec fn low_byte(v: u32) -> u8 {
    (v & 0xFFu32) as u8
}

/// Whether the fields come from the addresses and ports the receiver expects.
pub open spec fn from_expected(c: Config, t: TcpFields) -> bool {
    let (ip, sp, dp) = receive_filter(c);
    t.src_ip == ip && t.src_port == sp && t.dst_port == dp
}

/// The value a frame carries to a decoder with configuration `c`, if it is a
/// carrier: it parses, comes from the expected addresses, is no delimiter,
/// and has exactly the carrier flags.
pub open spec fn frame_value(c: Config, f: Seq<u8>) -> Option<u32> {
    match frame_fields(f) {
        Some(t) => if from_expected(c, t) && !is_delimiter(c, t.flags) && t.flags == carrier_flags(
            c,
        ) {
            Some(carried_value(c, t))
        } else {
            None
        },
        None => None,
    }
}

/// Whether a frame ends the message for a decoder with configuration `c`.
pub open spec fn frame_ends(c: Config, f: Seq<u8>) -> bool {
    match frame_fields(f) {
        Some(t) => from_expected(c, t) && is_delimiter(c, t.flags),
        None => false,
    }
}

impl Decoder {
    /// The state in which the decoder reads on.
    pub open spec fn wf(self) -> bool {
        &&& 0 < self.capacity < usize::MAX
        &&& self.pos <= self.capacity
        &&& self.conf.delimiter == Delim::NoDelim ==> self.pos < self.capacity
    }

    /// The decoder after frame `f`, and what follows.
    pub open spec fn step(self, f: Seq<u8>) -> (Decoder, Step) {
        if f.len() == 0 {
            (self, Step::Failed(CovertError::ReadCancelled))
        } else if frame_ends(self.conf, f) {
            (self, Step::Finished(self.pos))
        } else {
            match frame_value(self.conf, f) {
                None => (self, Step::Continue),
                Some(v) => if self.prev_val == Some(v) {
                    (self, Step::Continue)
                } else {
                    let next = Decoder { prev_val: Some(v), pos: (self.pos + 1) as usize, ..self };
                    if self.conf.delimiter == Delim::NoDelim && next.pos == self.capacity {
                        (next, Step::Finished(next.pos))
                    } else if self.conf.delimiter == Delim::Protocol && next.pos > self.capacity {
                        (next, Step::Failed(CovertError::InsufficientBufferSize))
                    } else {
                        (next, Step::Continue)
                    }
                },
            }
        }
    }

    /// The buffer after frame `f`: the carried byte goes to `buf[pos]` when
    /// the frame is accepted and `pos` is inside the buffer.
    pub open spec fn written(self, f: Seq<u8>, buf: Seq<u8>) -> Seq<u8> {
        if f.len() != 0 && !frame_ends(self.conf, f) && frame_value(self.conf, f) is Some
            && self.prev_val != frame_value(self.conf, f) && self.pos < buf.len() {
            buf.update(self.pos as int, low_byte(frame_value(self.conf, f)->Some_0))
        } else {
            buf
        }
    }

    /// Takes the next frame that the socket delivered, IPv4 header included;
    /// an empty frame means that the read was cancelled.
    pub fn feed(&mut self, frame: &[u8], buf: &mut [u8]) -> (r: Step)
        requires
            old(self).wf(),
            old(buf)@.len() == old(self).capacity,
        ensures
            (*final(self), r) == old(self).step(frame@),
            final(buf)@ == old(self).written(frame@, old(buf)@),
            r == Step::Continue ==> final(self).wf(),
    {
        if frame.len() == 0 {
            return Step::Failed(CovertError::ReadCancelled);
        }
        let t = match parse_frame(frame) {
            Some(t) => t,
            None => return Step::Continue,
        };
        let (ip, sp, dp) = self.conf.filter();
        if t.src_ip != ip || t.src_port != sp || t.dst_port != dp {
            return Step::Continue;
        }
        if self.conf.delimiter == Delim::Protocol {
            let ended = if self.conf.bounce {
                t.flags & RST == RST
            } else {
                t.flags & ACK == ACK
            };
            if ended {
                return Step::Finished(self.pos);
            }
        }
        let (new_val, expected_flags) = if self.conf.bounce {
            (t.acknowledgement.wrapping_sub(1), SYN | ACK)
        } else {
            (t.sequence, SYN)
        };
        assert(new_val == carried_value(self.conf, t));
        if t.flags != expected_flags {
            return Step::Continue;
        }
        if let Some(v) = self.prev_val {
            if v == new_val {
                return Step::Continue;
            }
        }
        assert(new_val & 0xFFu32 <= 0xFFu32) by (bit_vector);
        if self.pos < buf.len() {
            buf[self.pos] = (new_val & 0xFF) as u8;
        }
        self.pos = self.pos + 1;
        self.prev_val = Some(new_val);
        if self.conf.delimiter == Delim::NoDelim && self.pos == buf.len() {
            return Step::Finished(self.pos);
        }
        if self.conf.delimiter == Delim::Protocol && self.pos > buf.len() {
            return Step::Failed(CovertError::InsufficientBufferSize);
        }
        Step::Continue
    }
}

impl Receiver {
    /// The decoder for a receive into a buffer of `buf_len` bytes; `None`
    /// where the buffer is empty, as then nothing is read and the receive
    /// returns 0 at once.
    pub fn decoder(&self, buf_len: usize) -> (r: Option<Decoder>)
        requires
            buf_len < usize::MAX,
        ensures
            buf_len == 0 <==> r is None,
            r matches Some(d) ==> d.wf() && d == (Decoder {
                conf: self.conf,
                capacity: buf_len,
                prev_val: None,
                pos: 0,
            }),
    {
        if buf_len == 0 {
            None
        } else {
            Some(Decoder { conf: self.conf, capacity: buf_len, prev_val: None, pos: 0 })
        }
    }
}

} // verus!
