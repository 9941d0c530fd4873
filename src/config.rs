//! The configuration shared by both ends of a channel, and the two handles.

use vstd::prelude::*;

verus! {

/// How the end of a message is marked.
#[derive(Clone, Copy, Debug, PartialEq, Eq, Structural)]
pub enum Delim {
    /// A final packet with a flag of its own ends each message.
    Protocol,
    /// Nothing marks the end: the receiver stops when its buffer is full.
    NoDelim,
}

/// The configuration of a covert channel.
///
/// It names two address-port pairs. The friend is the node that messages
/// go to. The origin is the source that the friend sees on the packets it
/// receives: the sender itself, or in bounce mode the TCP service that the
/// packets are bounced off. Addresses are IPv4 addresses as 32-bit numbers,
/// first octet most significant.
#[derive(Clone, Copy)]
pub struct Config {
    pub friend_ip: u32,
    pub origin_ip: u32,
    pub friend_port: u16,
    pub origin_port: u16,
    /// In bounce mode the sender's SYN packets go to the origin with the
    /// friend's address forged as their source, so that the origin's SYN-ACK
    /// replies reach the friend.
    pub bounce: bool,
    /// How messages are delimited.
    pub delimiter: Delim,
}

/// The loopback address 127.0.0.1.
pub const LOCALHOST: u32 = 0x7F00_0001;

impl Default for Config {
    /// Both addresses on the loopback, ports 0, direct mode, messages
    /// delimited by the protocol.
    fn default() -> (r: Config)
        ensures
            r == (Config {
                friend_ip: LOCALHOST,
                origin_ip: LOCALHOST,
                friend_port: 0,
                origin_port: 0,
                bounce: false,
                delimiter: Delim::Protocol,
            }),
    {
        Config {
            friend_ip: LOCALHOST,
            origin_ip: LOCALHOST,
            friend_port: 0,
            origin_port: 0,
            bounce: false,
            delimiter: Delim::Protocol,
        }
    }
}

/// The addresses of the packets a sender emits: source address, destination
/// address, source port, destination port. In bounce mode the source is the
/// friend, forged, and the destination the bouncer.
pub open spec fn send_route(c: Config) -> (u32, u32, u16, u16) {
    if c.bounce {
        (c.friend_ip, c.origin_ip, c.friend_port, c.origin_port)
    } else {
        (c.origin_ip, c.friend_ip, c.origin_port, c.friend_port)
    }
}

/// What a receiver expects of the packets that carry a message: source
/// address, source port, destination port. In bounce mode they come from
/// the bouncer.
pub open spec fn receive_filter(c: Config) -> (u32, u16, u16) {
    if c.bounce {
        (c.origin_ip, c.origin_port, c.friend_port)
    } else {
        (c.friend_ip, c.friend_port, c.origin_port)
    }
}

impl Config {
    /// A configuration with the given addresses and ports; the other fields
    /// are those of the default configuration.
    pub fn new(friend_ip: u32, origin_ip: u32, friend_port: u16, origin_port: u16) -> (r: Config)
        ensures
            r == (Config {
                friend_ip,
                origin_ip,
                friend_port,
                origin_port,
                bounce: false,
                delimiter: Delim::Protocol,
            }),
    {
        let mut def = Config::default();
        def.friend_ip = friend_ip;
        def.origin_ip = origin_ip;
        def.friend_port = friend_port;
        def.origin_port = origin_port;
        def
    }

    /// The addresses of the packets a sender emits (see `send_route`).
    pub fn route(&self) -> (r: (u32, u32, u16, u16))
        ensures
            r == send_route(*self),
    {
        if self.bounce {
            (self.friend_ip, self.origin_ip, self.friend_port, self.origin_port)
        } else {
            (self.origin_ip, self.friend_ip, self.origin_port, self.friend_port)
        }
    }

    /// What a receiver expects of the packets it reads (see `receive_filter`).
    pub fn filter(&self) -> (r: (u32, u16, u16))
        ensures
            r == receive_filter(*self),
    {
        if self.bounce {
            (self.origin_ip, self.origin_port, self.friend_port)
        } else {
            (self.friend_ip, self.friend_port, self.origin_port)
        }
    }
}

/// Why a send or a receive failed.
#[derive(Clone, Copy, Debug, PartialEq, Eq, Structural)]
pub enum CovertError {
    /// The read was cancelled before the message was complete.
    ReadCancelled,
    /// More bytes arrived than the buffer holds, before the delimiter.
    InsufficientBufferSize,
    /// The network took fewer bytes of a packet than it holds.
    InsufficientBytesSize,
}

impl CovertError {
    /// A short description of the error.
    pub fn message(&self) -> (r: &'static str)
        ensures
            *self == CovertError::ReadCancelled ==> r@ == "Read cancelled"@,
            *self == CovertError::InsufficientBufferSize ==> r@ == "Insufficient buffer size"@,
            *self == CovertError::InsufficientBytesSize ==> r@ == "Insufficient bytes size"@,
    {
        proof {
            reveal_strlit("Read cancelled");
            reveal_strlit("Insufficient buffer size");
            reveal_strlit("Insufficient bytes size");
        }
        match self {
            CovertError::ReadCancelled => "Read cancelled",
            CovertError::InsufficientBufferSize => "Insufficient buffer size",
            CovertError::InsufficientBytesSize => "Insufficient bytes size",
        }
    }
}

/// The sending end of a channel.
pub struct Sender {
    pub conf: Config,
}

/// The receiving end of a channel.
pub struct Receiver {
    pub conf: Config,
}

/// A sender and a receiver, each with its own copy of `conf`. Nothing is
/// opened here: sockets are made when a message is sent or received.
pub fn channel(conf: Config) -> (r: Result<(Sender, Receiver), CovertError>)
    ensures
        r matches Ok((s, rx)) && s.conf == conf && rx.conf == conf,
{
    Ok((Sender { conf: conf }, Receiver { conf: conf }))
}

} // verus!
