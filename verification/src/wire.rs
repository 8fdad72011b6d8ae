//! Wire codec boundary: plain-value views of IPv4 and TCP headers, and the
//! trusted bridge to the etherparse encoder/decoder.
//!
//! The state machine never touches raw header bytes itself: inbound bytes
//! are turned into [`Ipv4Fields`] / [`TcpFields`] records, and outbound
//! segments are built from [`Ipv4Template`] / [`TcpTemplate`] records. The
//! encodings themselves are named, not restated: `ipv4_header_bytes` and
//! friends stand for what etherparse computes from the given fields.

use vstd::prelude::*;
use vstd::slice::slice_subrange;

verus! {

/// The fields of a parsed inbound IPv4 header that the endpoint reads.
#[derive(Clone, Copy)]
pub struct Ipv4Fields {
    pub source: [u8; 4],
    pub destination: [u8; 4],
    pub protocol: u8,
    /// Length in bytes of the header including options; the payload of the
    /// IPv4 datagram starts at this offset.
    pub header_len: usize,
}

/// The fields of a parsed inbound TCP header that the endpoint reads.
#[derive(Clone, Copy)]
pub struct TcpFields {
    pub source_port: u16,
    pub destination_port: u16,
    pub sequence_number: u32,
    pub acknowledgment_number: u32,
    pub window_size: u16,
    pub syn: bool,
    pub ack: bool,
    pub fin: bool,
    pub rst: bool,
    /// Length in bytes of the header including options; the TCP payload
    /// starts at this offset within the IPv4 payload.
    pub header_len: usize,
}

/// Cached outbound IPv4 header: the fields this endpoint chooses; everything
/// else of the encoded header takes the encoder's defaults (no options, no
/// fragmentation, identification 0).
#[derive(Clone, Copy)]
pub struct Ipv4Template {
    /// Length of everything after the IPv4 header (TCP header + data).
    pub payload_len: u16,
    pub time_to_live: u8,
    pub protocol: u8,
    pub source: [u8; 4],
    pub destination: [u8; 4],
}

/// Cached outbound TCP header: the fields this endpoint chooses; options,
/// checksum and the remaining flags take the encoder's defaults.
#[derive(Clone, Copy)]
pub struct TcpTemplate {
    pub source_port: u16,
    pub destination_port: u16,
    pub sequence_number: u32,
    pub acknowledgment_number: u32,
    pub window_size: u16,
    pub syn: bool,
    pub ack: bool,
    pub fin: bool,
    pub rst: bool,
}

/// What etherparse's IPv4 header decoder yields on a byte sequence: `None`
/// where decoding fails, otherwise the header's fields.
pub uninterp spec fn ipv4_header_parse(b: Seq<u8>) -> Option<Ipv4Fields>;

/// What etherparse's TCP header decoder yields on a byte sequence.
pub uninterp spec fn tcp_header_parse(b: Seq<u8>) -> Option<TcpFields>;

/// The 20 bytes that etherparse encodes from an options-free IPv4 header
/// with the template's fields (header checksum included).
pub uninterp spec fn ipv4_header_bytes(h: Ipv4Template) -> Seq<u8>;

/// The 20 bytes that etherparse encodes from an options-free TCP header
/// with the template's fields.
pub uninterp spec fn tcp_header_bytes(h: TcpTemplate) -> Seq<u8>;

/// Relies on etherparse::Ipv4HeaderSlice::from_slice, which succeeds only on
/// a buffer beginning with a well-formed IPv4 header, and on its field
/// accessors. `slice()` is the header part alone, so its length is between
/// 20 and 60 bytes and never exceeds the buffer.
#[verifier::external_body]
pub(crate) fn parse_ipv4_header(buf: &[u8]) -> (r: Option<Ipv4Fields>)
    ensures
        r == ipv4_header_parse(buf@),
        r matches Some(ip) ==> 20 <= ip.header_len <= 60 && ip.header_len <= buf@.len(),
{
    match etherparse::Ipv4HeaderSlice::from_slice(buf) {
        Ok(h) => Some(Ipv4Fields {
            source: h.source(),
            destination: h.destination(),
            protocol: h.protocol(),
            header_len: h.slice().len(),
        }),
        Err(_) => None,
    }
}

/// Relies on etherparse::TcpHeaderSlice::from_slice, which succeeds only on
/// a buffer beginning with a well-formed TCP header, and on its field
/// accessors. `slice()` is the header part alone, so its length is between
/// 20 and 60 bytes and never exceeds the buffer.
#[verifier::external_body]
pub(crate) fn parse_tcp_header(buf: &[u8]) -> (r: Option<TcpFields>)
    ensures
        r == tcp_header_parse(buf@),
        r matches Some(t) ==> 20 <= t.header_len <= 60 && t.header_len <= buf@.len(),
{
    match etherparse::TcpHeaderSlice::from_slice(buf) {
        Ok(h) => Some(TcpFields {
            source_port: h.source_port(),
            destination_port: h.destination_port(),
            sequence_number: h.sequence_number(),
            acknowledgment_number: h.acknowledgment_number(),
            window_size: h.window_size(),
            syn: h.syn(),
            ack: h.ack(),
            fin: h.fin(),
            rst: h.rst(),
            header_len: h.slice().len(),
        }),
        Err(_) => None,
    }
}

/// Relies on etherparse::Ipv4Header::{new, write}: with no options the
/// encoder emits exactly 20 bytes, computed from the header fields alone
/// (it fills in the header checksum itself). Encoding cannot fail for a
/// payload length within the IPv4 limit.
#[verifier::external_body]
pub(crate) fn encode_ipv4_header(h: &Ipv4Template) -> (r: Vec<u8>)
    requires
        h.payload_len <= 65515,
    ensures
        r@ == ipv4_header_bytes(*h),
        r@.len() == 20,
{
    let hdr = etherparse::Ipv4Header::new(
        h.payload_len,
        h.time_to_live,
        h.protocol,
        h.source,
        h.destination,
    );
    let mut out: Vec<u8> = Vec::new();
    let _ = hdr.write(&mut out);
    out
}

/// Relies on etherparse::TcpHeader::{new, write}: with no options the
/// encoder emits exactly 20 bytes, computed from the header fields alone.
/// Writing to a Vec cannot fail.
#[verifier::external_body]
pub(crate) fn encode_tcp_header(h: &TcpTemplate) -> (r: Vec<u8>)
    ensures
        r@ == tcp_header_bytes(*h),
        r@.len() == 20,
{
    let mut hdr = etherparse::TcpHeader::new(
        h.source_port,
        h.destination_port,
        h.sequence_number,
        h.window_size,
    );
    hdr.acknowledgment_number = h.acknowledgment_number;
    hdr.syn = h.syn;
    hdr.ack = h.ack;
    hdr.fin = h.fin;
    hdr.rst = h.rst;
    let mut out: Vec<u8> = Vec::new();
    let _ = hdr.write(&mut out);
    out
}

/// Decodes the two headers of one inbound datagram: the IPv4 header at the
/// start of the buffer, then the TCP header at the start of the IPv4
/// payload. Purely structural: the IPv4 protocol field is not inspected.
pub fn decode_headers(buf: &[u8]) -> (r: Option<(Ipv4Fields, TcpFields)>)
    ensures
        ipv4_header_parse(buf@) is None ==> r is None,
        ipv4_header_parse(buf@) matches Some(ip) ==> {
            &&& tcp_header_parse(buf@.subrange(ip.header_len as int, buf@.len() as int)) is None
                ==> r is None
            &&& tcp_header_parse(buf@.subrange(ip.header_len as int, buf@.len() as int))
                matches Some(t) ==> r == Some((ip, t))
        },
{
    match parse_ipv4_header(buf) {
        None => None,
        Some(ip) => {
            let rest = slice_subrange(buf, ip.header_len, buf.len());
            match parse_tcp_header(rest) {
                None => None,
                Some(t) => Some((ip, t)),
            }
        },
    }
}

} // verus!
