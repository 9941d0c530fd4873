use covert::config::{channel, Config, CovertError, Delim, Receiver, Sender};
use covert::packet::{create_packet, parse_frame, TcpFields, ACK, PACKET_LEN, RST, SYN};
use covert::receiver::{Decoder, Step};
use covert::sender::{next_seq, progress_percent, seq_with_byte, SendSession};

const FRIEND: u32 = 0x0A00_0002; // 10.0.0.2
const ORIGIN: u32 = 0x0A00_0001; // 10.0.0.1
const FRIEND_PORT: u16 = 8081;
const ORIGIN_PORT: u16 = 8082;

fn sender_conf() -> Config {
    Config::new(FRIEND, ORIGIN, FRIEND_PORT, ORIGIN_PORT)
}

/// The receiver's view of the direct channel that `sender_conf` sends on.
fn receiver_conf(delimiter: Delim) -> Config {
    let mut c = Config::new(ORIGIN, FRIEND, ORIGIN_PORT, FRIEND_PORT);
    c.delimiter = delimiter;
    c
}

fn decoder(conf: Config, len: usize) -> Decoder {
    Receiver { conf }.decoder(len).unwrap()
}

/// A SYN from the receiver's friend to its origin port.
fn direct_syn(seq: u32) -> Vec<u8> {
    create_packet(seq, SYN, ORIGIN, FRIEND, ORIGIN_PORT, FRIEND_PORT)
}

fn direct_ack() -> Vec<u8> {
    create_packet(0x1234_5678, ACK, ORIGIN, FRIEND, ORIGIN_PORT, FRIEND_PORT)
}

fn fields(p: &[u8]) -> TcpFields {
    parse_frame(p).unwrap()
}

/// All packets of a session, each taken in full by the network.
fn drain(session: &mut SendSession) -> Vec<Vec<u8>> {
    let mut out = Vec::new();
    while let Some(p) = session.next_packet() {
        assert!(session.packet_sent(p.len()).is_ok());
        out.push(p);
    }
    out
}

fn sum_words(bytes: &[u8], init: u32) -> u32 {
    let mut sum = init;
    for pair in bytes.chunks(2) {
        let hi = (pair[0] as u32) << 8;
        let lo = if pair.len() > 1 { pair[1] as u32 } else { 0 };
        sum += hi | lo;
    }
    sum
}

fn fold(mut sum: u32) -> u16 {
    while sum >> 16 != 0 {
        sum = (sum >> 16) + (sum & 0xFFFF);
    }
    sum as u16
}

fn feed_all(d: &mut Decoder, frames: &[Vec<u8>], buf: &mut [u8]) -> Step {
    for f in frames {
        let step = d.feed(f, buf);
        if step != Step::Continue {
            return step;
        }
    }
    Step::Continue
}

#[test]
fn default_and_new_config() {
    let d = Config::default();
    assert_eq!(d.friend_ip, 0x7F00_0001);
    assert_eq!(d.origin_ip, 0x7F00_0001);
    assert_eq!(d.friend_port, 0);
    assert_eq!(d.origin_port, 0);
    assert!(!d.bounce);
    assert_eq!(d.delimiter, Delim::Protocol);
    let c = sender_conf();
    assert_eq!((c.friend_ip, c.origin_ip, c.friend_port, c.origin_port), (FRIEND, ORIGIN, FRIEND_PORT, ORIGIN_PORT));
    assert!(!c.bounce);
    assert_eq!(c.delimiter, Delim::Protocol);
}

#[test]
fn channel_copies_config() {
    let (s, r) = channel(sender_conf()).unwrap();
    assert_eq!(s.conf.friend_port, FRIEND_PORT);
    assert_eq!(r.conf.origin_port, ORIGIN_PORT);
}

#[test]
fn routes_by_mode() {
    let mut c = sender_conf();
    assert_eq!(c.route(), (ORIGIN, FRIEND, ORIGIN_PORT, FRIEND_PORT));
    assert_eq!(c.filter(), (FRIEND, FRIEND_PORT, ORIGIN_PORT));
    c.bounce = true;
    assert_eq!(c.route(), (FRIEND, ORIGIN, FRIEND_PORT, ORIGIN_PORT));
    assert_eq!(c.filter(), (ORIGIN, ORIGIN_PORT, FRIEND_PORT));
}

#[test]
fn error_messages() {
    assert_eq!(CovertError::ReadCancelled.message(), "Read cancelled");
    assert_eq!(CovertError::InsufficientBufferSize.message(), "Insufficient buffer size");
    assert_eq!(CovertError::InsufficientBytesSize.message(), "Insufficient bytes size");
}

#[test]
fn packet_layout() {
    let p = create_packet(0x1122_3344, SYN, 0x0102_0304, 0x0506_0708, 0xA1A2, 0xB1B2);
    assert_eq!(p.len(), PACKET_LEN);
    assert_eq!(&p[0..10], &[0x45, 0, 0, 40, 0, 0, 0, 0, 64, 6]);
    assert_eq!(&p[12..20], &[1, 2, 3, 4, 5, 6, 7, 8]);
    assert_eq!(&p[20..36], &[0xA1, 0xA2, 0xB1, 0xB2, 0x11, 0x22, 0x33, 0x44, 0, 0, 0, 0, 0x50, 2, 0x80, 0]);
    assert_eq!(&p[38..40], &[0, 0]);
}

#[test]
fn packet_checksums_are_valid() {
    let p = create_packet(0xDEAD_BEEF, SYN, 0xC0A8_0001, 0xC0A8_0002, 1234, 80);
    // Summing a header with its checksum in place gives all ones.
    assert_eq!(fold(sum_words(&p[0..20], 0)), 0xFFFF);
    let pseudo = sum_words(&p[12..20], 0) + 6 + 20;
    assert_eq!(fold(sum_words(&p[20..40], pseudo)), 0xFFFF);
    assert_ne!(&p[10..12], &[0, 0]);
    assert_ne!(&p[36..38], &[0, 0]);
}

#[test]
fn parse_reads_built_packet() {
    let p = create_packet(0x1122_3344, ACK, ORIGIN, FRIEND, ORIGIN_PORT, FRIEND_PORT);
    assert_eq!(
        fields(&p),
        TcpFields {
            src_ip: ORIGIN,
            src_port: ORIGIN_PORT,
            dst_port: FRIEND_PORT,
            sequence: 0x1122_3344,
            acknowledgement: 0,
            flags: ACK,
        }
    );
}

#[test]
fn parse_rejects_short_frames() {
    let p = direct_syn(5);
    assert_eq!(parse_frame(&p[..7]), None);
    assert_eq!(parse_frame(&p[..39]), None);
    let mut q = p.clone();
    q[0] = 0x44; // a header of 16 bytes is shorter than a bare IPv4 header
    assert_eq!(parse_frame(&q), None);
    q[0] = 0x4F; // 60 declared bytes, more than the frame holds
    assert_eq!(parse_frame(&q), None);
}

#[test]
fn seq_keeps_byte_in_low_bits() {
    assert_eq!(seq_with_byte(0x41, 0x1234_5678), 0x1234_5641);
    assert_eq!(seq_with_byte(0xFF, 0), 0xFF);
    for b in 0..=255u8 {
        let s = next_seq(b, 0x0000_0100 | b as u32);
        assert_eq!(s & 0xFF, b as u32);
        assert_ne!(s, 0x0000_0100 | b as u32);
    }
}

#[test]
fn progress_percentages() {
    assert_eq!(progress_percent(1, 3), 33);
    assert_eq!(progress_percent(29, 100), 29);
    assert_eq!(progress_percent(3, 3), 100);
    assert_eq!(progress_percent(0, 7), 0);
}

#[test]
fn progress_reported_on_each_whole_percent() {
    let sender = Sender { conf: sender_conf() };
    let data = vec![7u8; 200];
    let mut session = sender.begin(&data);
    let mut reports = Vec::new();
    while let Some(p) = session.next_packet() {
        if let Ok(Some(n)) = session.packet_sent(p.len()) {
            reports.push(n);
        }
    }
    let expected: Vec<usize> = (1..=100).map(|k| 2 * k).collect();
    assert_eq!(reports, expected);
}

#[test]
fn short_send_fails() {
    let sender = Sender { conf: sender_conf() };
    let mut session = sender.begin(b"hi");
    let p = session.next_packet().unwrap();
    assert_eq!(session.packet_sent(p.len() - 1), Err(CovertError::InsufficientBytesSize));
    assert_eq!(session.packet_sent(0), Err(CovertError::InsufficientBytesSize));
}

#[test]
fn sender_single_byte_direct() {
    let sender = Sender { conf: sender_conf() };
    let mut session = sender.begin(b"A");
    let packets = drain(&mut session);
    assert_eq!(packets.len(), 2);
    let syn = fields(&packets[0]);
    assert_eq!(syn.flags, SYN);
    assert_eq!(syn.sequence & 0xFF, 0x41);
    assert_eq!((syn.src_ip, syn.src_port, syn.dst_port), (ORIGIN, ORIGIN_PORT, FRIEND_PORT));
    assert_eq!(&packets[0][16..20], &FRIEND.to_be_bytes());
    let ack = fields(&packets[1]);
    assert_eq!(ack.flags, ACK);
    assert_eq!((ack.src_ip, ack.src_port, ack.dst_port), (ORIGIN, ORIGIN_PORT, FRIEND_PORT));
}

#[test]
fn sender_single_byte_without_delimiter() {
    let mut conf = sender_conf();
    conf.delimiter = Delim::NoDelim;
    let sender = Sender { conf };
    let mut session = sender.begin(b"A");
    let packets = drain(&mut session);
    assert_eq!(packets.len(), 1);
    assert_eq!(fields(&packets[0]).sequence & 0xFF, 0x41);
}

#[test]
fn sender_repeated_byte() {
    let sender = Sender { conf: sender_conf() };
    let mut session = sender.begin(b"AA");
    let packets = drain(&mut session);
    assert_eq!(packets.len(), 3);
    let a = fields(&packets[0]);
    let b = fields(&packets[1]);
    assert_eq!((a.flags, b.flags), (SYN, SYN));
    assert_eq!(a.sequence & 0xFF, 0x41);
    assert_eq!(b.sequence & 0xFF, 0x41);
    assert_ne!(a.sequence, b.sequence);
}

#[test]
fn sender_bounce_forges_friend() {
    let mut conf = sender_conf();
    conf.bounce = true;
    let sender = Sender { conf };
    let mut session = sender.begin(b"z");
    let packets = drain(&mut session);
    let syn = fields(&packets[0]);
    assert_eq!((syn.src_ip, syn.src_port, syn.dst_port), (FRIEND, FRIEND_PORT, ORIGIN_PORT));
    assert_eq!(&packets[0][16..20], &ORIGIN.to_be_bytes());
    assert_eq!(syn.sequence & 0xFF, b'z' as u32);
}

#[test]
fn adjacent_seqs_differ_and_carry_bytes() {
    let sender = Sender { conf: sender_conf() };
    let data: Vec<u8> = (0..300u32).map(|i| (i % 3) as u8).collect();
    let mut session = sender.begin(&data);
    let packets = drain(&mut session);
    let seqs: Vec<u32> = packets[..data.len()].iter().map(|p| fields(p).sequence).collect();
    for (i, s) in seqs.iter().enumerate() {
        assert_eq!((s & 0xFF) as u8, data[i]);
        if i > 0 {
            assert_ne!(seqs[i - 1], *s);
        }
    }
}

#[test]
fn receiver_direct_protocol_with_duplicate() {
    let mut d = decoder(receiver_conf(Delim::Protocol), 2);
    let mut buf = [0u8; 2];
    let frames = vec![direct_syn(0x1122_3344), direct_syn(0x1122_3344), direct_syn(0x5566_7788), direct_ack()];
    assert_eq!(feed_all(&mut d, &frames, &mut buf), Step::Finished(2));
    assert_eq!(buf, [0x44, 0x88]);
}

#[test]
fn receiver_bounce_protocol() {
    let mut conf = sender_conf();
    conf.bounce = true;
    let mut d = decoder(conf, 4);
    let mut buf = [0u8; 4];
    let mut syn_ack = create_packet(0x9999_0000, SYN | ACK, ORIGIN, FRIEND, ORIGIN_PORT, FRIEND_PORT);
    syn_ack[28..32].copy_from_slice(&0x0000_0042u32.to_be_bytes());
    let rst = create_packet(0, RST, ORIGIN, FRIEND, ORIGIN_PORT, FRIEND_PORT);
    assert_eq!(feed_all(&mut d, &[syn_ack, rst], &mut buf), Step::Finished(1));
    assert_eq!(buf[0], 0x41);
}

#[test]
fn receiver_bounce_ack_zero_wraps() {
    let mut conf = sender_conf();
    conf.bounce = true;
    let mut d = decoder(conf, 4);
    let mut buf = [0u8; 4];
    let syn_ack = create_packet(0, SYN | ACK, ORIGIN, FRIEND, ORIGIN_PORT, FRIEND_PORT);
    assert_eq!(d.feed(&syn_ack, &mut buf), Step::Continue);
    assert_eq!(d.prev_val, Some(0xFFFF_FFFF));
    assert_eq!(buf[0], 0xFF);
}

#[test]
fn receiver_without_delimiter_stops_when_full() {
    let mut d = decoder(receiver_conf(Delim::NoDelim), 1);
    let mut buf = [0u8; 1];
    let frames = vec![direct_syn(0xAAAA_AA61), direct_syn(0xBBBB_BB62)];
    assert_eq!(feed_all(&mut d, &frames, &mut buf), Step::Finished(1));
    assert_eq!(buf, [0x61]);
}

#[test]
fn receiver_protocol_overflow() {
    let mut d = decoder(receiver_conf(Delim::Protocol), 1);
    let mut buf = [0u8; 1];
    let frames = vec![direct_syn(0xAAAA_AA61), direct_syn(0xBBBB_BB62)];
    assert_eq!(feed_all(&mut d, &frames, &mut buf), Step::Failed(CovertError::InsufficientBufferSize));
    assert_eq!(buf, [0x61]);
}

#[test]
fn receiver_protocol_exactly_full_then_delimiter() {
    let mut d = decoder(receiver_conf(Delim::Protocol), 1);
    let mut buf = [0u8; 1];
    let frames = vec![direct_syn(0xAAAA_AA61), direct_ack()];
    assert_eq!(feed_all(&mut d, &frames, &mut buf), Step::Finished(1));
}

#[test]
fn receiver_cancelled_read() {
    let mut d = decoder(receiver_conf(Delim::Protocol), 8);
    let mut buf = [0u8; 8];
    assert_eq!(d.feed(&[], &mut buf), Step::Failed(CovertError::ReadCancelled));
}

#[test]
fn receiver_empty_buffer_needs_no_read() {
    let r = Receiver { conf: receiver_conf(Delim::Protocol) };
    assert!(r.decoder(0).is_none());
    assert!(r.decoder(1).is_some());
}

#[test]
fn receiver_filters_foreign_frames() {
    let mut d = decoder(receiver_conf(Delim::NoDelim), 4);
    let mut buf = [0u8; 4];
    let frames = vec![
        create_packet(0x0000_0101, SYN, 0x0808_0808, FRIEND, ORIGIN_PORT, FRIEND_PORT),
        create_packet(0x0000_0102, SYN, ORIGIN, FRIEND, 1, FRIEND_PORT),
        create_packet(0x0000_0103, SYN, ORIGIN, FRIEND, ORIGIN_PORT, 2),
        create_packet(0x0000_0104, SYN | ACK, ORIGIN, FRIEND, ORIGIN_PORT, FRIEND_PORT),
        create_packet(0x0000_0105, ACK, ORIGIN, FRIEND, ORIGIN_PORT, FRIEND_PORT),
        vec![0x45, 0, 0, 5],
    ];
    assert_eq!(feed_all(&mut d, &frames, &mut buf), Step::Continue);
    assert_eq!(d.pos, 0);
    assert_eq!(d.prev_val, None);
    assert_eq!(buf, [0; 4]);
}

#[test]
fn receiver_repeated_value_counts_once() {
    let mut d = decoder(receiver_conf(Delim::Protocol), 4);
    let mut buf = [0u8; 4];
    assert_eq!(d.feed(&direct_syn(0x0102_0341), &mut buf), Step::Continue);
    assert_eq!(d.feed(&direct_syn(0x0102_0341), &mut buf), Step::Continue);
    assert_eq!(d.pos, 1);
    // The same byte with other upper bits is a new byte.
    assert_eq!(d.feed(&direct_syn(0x0902_0341), &mut buf), Step::Continue);
    assert_eq!(d.pos, 2);
    assert_eq!(&buf[..2], &[0x41, 0x41]);
}

#[test]
fn round_trip_direct_with_delimiter() {
    let data = b"hello, friend".to_vec();
    let sender = Sender { conf: sender_conf() };
    let mut session = sender.begin(&data);
    let packets = drain(&mut session);
    let mut d = decoder(receiver_conf(Delim::Protocol), 64);
    let mut buf = [0u8; 64];
    assert_eq!(feed_all(&mut d, &packets, &mut buf), Step::Finished(data.len()));
    assert_eq!(&buf[..data.len()], &data[..]);
    assert!(buf[data.len()..].iter().all(|&b| b == 0));
}

#[test]
fn round_trip_direct_without_delimiter() {
    let data = b"aaabbbccc".to_vec();
    let mut conf = sender_conf();
    conf.delimiter = Delim::NoDelim;
    let sender = Sender { conf };
    let mut session = sender.begin(&data);
    let packets = drain(&mut session);
    assert_eq!(packets.len(), data.len());
    for n in 1..=data.len() {
        let mut d = decoder(receiver_conf(Delim::NoDelim), n);
        let mut buf = vec![0u8; n];
        assert_eq!(feed_all(&mut d, &packets, &mut buf), Step::Finished(n));
        assert_eq!(&buf[..], &data[..n]);
    }
}

#[test]
fn round_trip_bounced_without_delimiter() {
    let data = b"bounce me".to_vec();
    let mut conf = sender_conf();
    conf.bounce = true;
    conf.delimiter = Delim::NoDelim;
    let sender = Sender { conf };
    let mut session = sender.begin(&data);
    let packets = drain(&mut session);
    // The bouncer answers each SYN with a SYN-ACK to the forged source.
    let replies: Vec<Vec<u8>> = packets
        .iter()
        .map(|p| {
            let syn = fields(p);
            let mut reply = create_packet(0x7777_0000, SYN | ACK, ORIGIN, FRIEND, ORIGIN_PORT, FRIEND_PORT);
            reply[28..32].copy_from_slice(&syn.sequence.wrapping_add(1).to_be_bytes());
            reply
        })
        .collect();
    let mut d = decoder(conf, data.len());
    let mut buf = vec![0u8; data.len()];
    assert_eq!(feed_all(&mut d, &replies, &mut buf), Step::Finished(data.len()));
    assert_eq!(buf, data);
}

#[test]
fn pause_follows_payload_packets_only() {
    let sender = Sender { conf: sender_conf() };
    let mut session = sender.begin(b"ab");
    let mut pauses = Vec::new();
    while let Some(p) = session.next_packet() {
        assert!(session.packet_sent(p.len()).is_ok());
        pauses.push(session.pause_follows());
    }
    assert_eq!(pauses, vec![true, true, false]);
}
