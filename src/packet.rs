//! Forged IPv4 + TCP packets: their wire format, how they are built and how
//! the fields the channel reads are taken back out of received bytes.

use vstd::prelude::*;

verus! {

/// TCP flag bit: reset the connection.
pub const RST: u8 = 4;

/// TCP flag bit: synchronize sequence numbers.
pub const SYN: u8 = 2;

/// TCP flag bit: the acknowledgement field is significant.
pub const ACK: u8 = 16;

/// Length of an IPv4 header without options.
pub const IPV4_HEADER_LEN: usize = 20;

/// Length of a TCP header without options.
pub const TCP_HEADER_LEN: usize = 20;

/// Length of a forged packet: one IPv4 header and one TCP header.
pub const PACKET_LEN: usize = 40;

/// The two bytes of `x`, most significant first.
pub open spec fn be16(x: u16) -> Seq<u8> {
    seq![(x >> 8u16) as u8, x as u8]
}

/// The four bytes of `x`, most significant first.
pub open spec fn be32(x: u32) -> Seq<u8> {
    seq![(x >> 24u32) as u8, (x >> 16u32) as u8, (x >> 8u32) as u8, x as u8]
}

/// The 16-bit big-endian value that starts at `i`.
pub open spec fn read_be16(s: Seq<u8>, i: int) -> u16 {
    ((s[i] as u16) << 8u16) | (s[i + 1] as u16)
}

/// The 32-bit big-endian value that starts at `i`.
pub open spec fn read_be32(s: Seq<u8>, i: int) -> u32 {
    ((s[i] as u32) << 24u32) | ((s[i + 1] as u32) << 16u32) | ((s[i + 2] as u32) << 8u32) | (
    s[i + 3] as u32)
}

/// Two bytes written most significant first read back as the value.
pub proof fn lemma_be16_round_trip(x: u16)
    ensures
        read_be16(be16(x), 0) == x,
{
    let b0 = (x >> 8u16) as u8;
    let b1 = x as u8;
    assert((((b0 as u16) << 8u16) | (b1 as u16)) == x) by (bit_vector)
        requires
            b0 == (x >> 8u16) as u8,
            b1 == x as u8,
    ;
}

/// Four bytes written most significant first read back as the value.
pub proof fn lemma_be32_round_trip(x: u32)
    ensures
        read_be32(be32(x), 0) == x,
{
    let b0 = (x >> 24u32) as u8;
    let b1 = (x >> 16u32) as u8;
    let b2 = (x >> 8u32) as u8;
    let b3 = x as u8;
    assert((((b0 as u32) << 24u32) | ((b1 as u32) << 16u32) | ((b2 as u32) << 8u32) | (b3 as u32))
        == x) by (bit_vector)
        requires
            b0 == (x >> 24u32) as u8,
            b1 == (x >> 16u32) as u8,
            b2 == (x >> 8u32) as u8,
            b3 == x as u8,
    ;
}

/// Reads the 16-bit big-endian value that starts at `i`.
pub fn get_be16(s: &[u8], i: usize) -> (r: u16)
    requires
        i + 2 <= s@.len(),
    ensures
        r == read_be16(s@, i as int),
{
    ((s[i] as u16) << 8u16) | (s[i + 1] as u16)
}

/// Reads the 32-bit big-endian value that starts at `i`.
pub fn get_be32(s: &[u8], i: usize) -> (r: u32)
    requires
        i + 4 <= s@.len(),
    ensures
        r == read_be32(s@, i as int),
{
    ((s[i] as u32) << 24u32) | ((s[i + 1] as u32) << 16u32) | ((s[i + 2] as u32) << 8u32) | (s[i
        + 3] as u32)
}

fn push_be16(v: &mut Vec<u8>, x: u16)
    ensures
        final(v)@ == old(v)@ + be16(x),
{
    v.push((x >> 8u16) as u8);
    v.push(x as u8);
    assert(v@ =~= old(v)@ + be16(x));
}

fn push_be32(v: &mut Vec<u8>, x: u32)
    ensures
        final(v)@ == old(v)@ + be32(x),
{
    v.push((x >> 24u32) as u8);
    v.push((x >> 16u32) as u8);
    v.push((x >> 8u32) as u8);
    v.push(x as u8);
    assert(v@ =~= old(v)@ + be32(x));
}

/// An IPv4 header without options: version 4, header length 5 words, total
/// length 40, time to live 64, protocol TCP.
pub open spec fn ip_header(src_ip: u32, dst_ip: u32, checksum: u16) -> Seq<u8> {
    seq![0x45u8, 0u8] + be16(40) + be16(0) + be16(0) + seq![64u8, 6u8] + be16(checksum) + be32(
        src_ip,
    ) + be32(dst_ip)
}

/// A TCP header without options: acknowledgement number 0, data offset 5
/// words, window 32768, urgent pointer 0.
pub open spec fn tcp_header(
    src_port: u16,
    dst_port: u16,
    sequence: u32,
    flags: u8,
    checksum: u16,
) -> Seq<u8> {
    be16(src_port) + be16(dst_port) + be32(sequence) + be32(0) + seq![0x50u8, flags] + be16(32768)
        + be16(checksum) + be16(0)
}

/// The IPv4 header checksum that pnet computes over a header; the checksum
/// field itself is left out of the sum.
pub uninterp spec fn ipv4_header_checksum(header: Seq<u8>) -> u16;

/// The TCP checksum that pnet computes over a segment and the IPv4
/// pseudo-header of the two addresses; the checksum field itself is left out
/// of the sum.
pub uninterp spec fn tcp_ipv4_checksum(segment: Seq<u8>, src_ip: u32, dst_ip: u32) -> u16;

/// The forged packet that carries `sequence` and `flags` from `src_ip`:`src_port`
/// to `dst_ip`:`dst_port`, both checksums filled in.
pub open spec fn packet_bytes(
    sequence: u32,
    flags: u8,
    src_ip: u32,
    dst_ip: u32,
    src_port: u16,
    dst_port: u16,
) -> Seq<u8> {
    let tcp_sum = tcp_ipv4_checksum(tcp_header(src_port, dst_port, sequence, flags, 0), src_ip, dst_ip);
    let ip_sum = ipv4_header_checksum(ip_header(src_ip, dst_ip, 0));
    ip_header(src_ip, dst_ip, ip_sum) + tcp_header(src_port, dst_port, sequence, flags, tcp_sum)
}

/// Relies on pnet::packet::ipv4::checksum for the checksum of an IPv4 header,
/// which depends on the header's bytes alone.
#[verifier::external_body]
fn ip_checksum(header: &[u8]) -> (r: u16)
    requires
        header@.len() == IPV4_HEADER_LEN,
    ensures
        r == ipv4_header_checksum(header@),
{
    pnet::packet::ipv4::checksum(&pnet::packet::ipv4::Ipv4Packet::new(header).unwrap())
}

/// Relies on pnet::packet::tcp::ipv4_checksum for the checksum of a TCP
/// segment sent between two IPv4 addresses, which depends on the segment's
/// bytes and the two addresses alone.
#[verifier::external_body]
fn tcp_checksum(segment: &[u8], src_ip: u32, dst_ip: u32) -> (r: u16)
    requires
        segment@.len() == TCP_HEADER_LEN,
    ensures
        r == tcp_ipv4_checksum(segment@, src_ip, dst_ip),
{
    pnet::packet::tcp::ipv4_checksum(
        &pnet::packet::tcp::TcpPacket::new(segment).unwrap(),
        &pnet::util::core_net::Ipv4Addr::from(src_ip),
        &pnet::util::core_net::Ipv4Addr::from(dst_ip),
    )
}

fn ip_header_bytes(src_ip: u32, dst_ip: u32, checksum: u16) -> (r: Vec<u8>)
    ensures
        r@ == ip_header(src_ip, dst_ip, checksum),
        r@.len() == IPV4_HEADER_LEN,
{
    let mut v: Vec<u8> = Vec::new();
    v.push(0x45u8);
    v.push(0u8);
    push_be16(&mut v, 40);
    push_be16(&mut v, 0);
    push_be16(&mut v, 0);
    v.push(64u8);
    v.push(6u8);
    push_be16(&mut v, checksum);
    push_be32(&mut v, src_ip);
    push_be32(&mut v, dst_ip);
    assert(v@ =~= ip_header(src_ip, dst_ip, checksum));
    v
}

fn tcp_header_bytes(
    v: &mut Vec<u8>,
    src_port: u16,
    dst_port: u16,
    sequence: u32,
    flags: u8,
    checksum: u16,
)
    ensures
        final(v)@ == old(v)@ + tcp_header(src_port, dst_port, sequence, flags, checksum),
{
    push_be16(v, src_port);
    push_be16(v, dst_port);
    push_be32(v, sequence);
    push_be32(v, 0);
    v.push(0x50u8);
    v.push(flags);
    push_be16(v, 32768);
    push_be16(v, checksum);
    push_be16(v, 0);
    assert(v@ =~= old(v)@ + tcp_header(src_port, dst_port, sequence, flags, checksum));
}

/// Builds the forged packet that carries `sequence` and `flags` from
/// `src_ip`:`src_port` to `dst_ip`:`dst_port`, with valid IPv4 and TCP
/// checksums.
pub fn create_packet(
    sequence: u32,
    flags: u8,
    src_ip: u32,
    dst_ip: u32,
    src_port: u16,
    dst_port: u16,
) -> (r: Vec<u8>)
    ensures
        r@ == packet_bytes(sequence, flags, src_ip, dst_ip, src_port, dst_port),
        r@.len() == PACKET_LEN,
{
    let mut segment: Vec<u8> = Vec::new();
    tcp_header_bytes(&mut segment, src_port, dst_port, sequence, flags, 0);
    assert(segment@ =~= tcp_header(src_port, dst_port, sequence, flags, 0));
    let tcp_sum = tcp_checksum(segment.as_slice(), src_ip, dst_ip);
    let template = ip_header_bytes(src_ip, dst_ip, 0);
    let ip_sum = ip_checksum(template.as_slice());
    let mut out = ip_header_bytes(src_ip, dst_ip, ip_sum);
    tcp_header_bytes(&mut out, src_port, dst_port, sequence, flags, tcp_sum);
    out
}

/// The fields of a received frame that the channel reads.
#[derive(Clone, Copy, Debug, PartialEq, Eq, Structural)]
pub struct TcpFields {
    pub src_ip: u32,
    pub src_port: u16,
    pub dst_port: u16,
    pub sequence: u32,
    pub acknowledgement: u32,
    pub flags: u8,
}

/// The IPv4 header length that a frame declares, in bytes.
pub open spec fn declared_header_len(f: Seq<u8>) -> int {
    (f[0] % 16) as int * 4
}

/// The fields of a frame that starts with an IPv4 header: `None` where the
/// frame is shorter than 8 bytes or than its declared header length, where
/// that header is shorter than a bare IPv4 header, or where less than a bare
/// TCP header follows it.
pub open spec fn frame_fields(f: Seq<u8>) -> Option<TcpFields> {
    if f.len() < 8 {
        None
    } else {
        let ihl = declared_header_len(f);
        if f.len() < ihl || ihl < IPV4_HEADER_LEN || f.len() - ihl < TCP_HEADER_LEN {
            None
        } else {
            Some(
                TcpFields {
                    src_ip: read_be32(f, 12),
                    src_port: read_be16(f, ihl),
                    dst_port: read_be16(f, ihl + 2),
                    sequence: read_be32(f, ihl + 4),
                    acknowledgement: read_be32(f, ihl + 8),
                    flags: f[ihl + 13],
                },
            )
        }
    }
}

/// Reads the IPv4 source address and the TCP fields of a received frame.
pub fn parse_frame(f: &[u8]) -> (r: Option<TcpFields>)
    ensures
        r == frame_fields(f@),
{
    if f.len() < 8 {
        return None;
    }
    let ihl: usize = ((f[0] % 16) as usize) * 4;
    if f.len() < ihl || ihl < IPV4_HEADER_LEN || f.len() - ihl < TCP_HEADER_LEN {
        return None;
    }
    Some(
        TcpFields {
            src_ip: get_be32(f, 12),
            src_port: get_be16(f, ihl),
            dst_port: get_be16(f, ihl + 2),
            sequence: get_be32(f, ihl + 4),
            acknowledgement: get_be32(f, ihl + 8),
            flags: f[ihl + 13],
        },
    )
}

/// A built packet reads back as the fields it was built from, with
/// acknowledgement number 0.
pub proof fn lemma_parse_built_packet(
    sequence: u32,
    flags: u8,
    src_ip: u32,
    dst_ip: u32,
    src_port: u16,
    dst_port: u16,
)
    ensures
        frame_fields(packet_bytes(sequence, flags, src_ip, dst_ip, src_port, dst_port)) == Some(
            TcpFields {
                src_ip,
                src_port,
                dst_port,
                sequence,
                acknowledgement: 0,
                flags,
            },
        ),
{
    let tcp_sum = tcp_ipv4_checksum(tcp_header(src_port, dst_port, sequence, flags, 0), src_ip, dst_ip);
    let ip_sum = ipv4_header_checksum(ip_header(src_ip, dst_ip, 0));
    let p = packet_bytes(sequence, flags, src_ip, dst_ip, src_port, dst_port);
    let ip = ip_header(src_ip, dst_ip, ip_sum);
    let tcp = tcp_header(src_port, dst_port, sequence, flags, tcp_sum);
    assert(p == ip + tcp);
    assert(p.len() == 40);
    assert(p[0] == 0x45u8);
    assert(declared_header_len(p) == 20);
    lemma_be16_round_trip(src_port);
    lemma_be16_round_trip(dst_port);
    lemma_be32_round_trip(sequence);
    lemma_be32_round_trip(0);
    lemma_be32_round_trip(src_ip);
    assert(p.subrange(12, 16) =~= be32(src_ip));
    assert(p.subrange(20, 22) =~= be16(src_port));
    assert(p.subrange(22, 24) =~= be16(dst_port));
    assert(p.subrange(24, 28) =~= be32(sequence));
    assert(p.subrange(28, 32) =~= be32(0));
    assert(read_be32(p, 12) == read_be32(be32(src_ip), 0));
    assert(read_be16(p, 20) == read_be16(be16(src_port), 0));
    assert(read_be16(p, 22) == read_be16(be16(dst_port), 0));
    assert(read_be32(p, 24) == read_be32(be32(sequence), 0));
    assert(read_be32(p, 28) == read_be32(be32(0), 0));
    assert(p[33] == flags);
}

} // verus!
