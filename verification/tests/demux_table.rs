//! The demultiplexer table and the per-datagram dispatch, driven by raw
//! crafted datagrams.

use trust::demux::{addr_key, process_datagram, quad_for, DecodeError, FlowTable, Quad};
use trust::tcp::State;
use trust::wire::{decode_headers, Ipv4Fields, TcpFields};

const FIN: u8 = 1;
const SYN: u8 = 2;
const ACK: u8 = 16;

/// One raw IPv4+TCP datagram, header checksums left zero.
fn datagram(
    src: [u8; 4],
    dst: [u8; 4],
    protocol: u8,
    sport: u16,
    dport: u16,
    seq: u32,
    ack_no: u32,
    flags: u8,
    wnd: u16,
    payload: &[u8],
) -> Vec<u8> {
    let total_len = (40 + payload.len()) as u16;
    let mut b = Vec::new();
    b.push(0x45);
    b.push(0);
    b.extend_from_slice(&total_len.to_be_bytes());
    b.extend_from_slice(&[0, 0, 0x40, 0]);
    b.push(64);
    b.push(protocol);
    b.extend_from_slice(&[0, 0]);
    b.extend_from_slice(&src);
    b.extend_from_slice(&dst);
    b.extend_from_slice(&sport.to_be_bytes());
    b.extend_from_slice(&dport.to_be_bytes());
    b.extend_from_slice(&seq.to_be_bytes());
    b.extend_from_slice(&ack_no.to_be_bytes());
    b.push(0x50);
    b.push(flags);
    b.extend_from_slice(&wnd.to_be_bytes());
    b.extend_from_slice(&[0, 0, 0, 0]);
    b.extend_from_slice(payload);
    b
}

const PEER: [u8; 4] = [1, 2, 3, 4];
const LOCAL: [u8; 4] = [10, 0, 0, 1];

#[test]
fn address_key_is_network_order() {
    assert_eq!(addr_key(&[1, 2, 3, 4]), 0x0102_0304);
    assert_eq!(addr_key(&[255, 0, 0, 1]), 0xFF00_0001);
}

#[test]
fn quad_taken_from_receiver_perspective() {
    let ip = Ipv4Fields {
        source: PEER,
        destination: LOCAL,
        protocol: 6,
        header_len: 20,
    };
    let t = TcpFields {
        source_port: 55000,
        destination_port: 4000,
        sequence_number: 0,
        acknowledgment_number: 0,
        window_size: 0,
        syn: true,
        ack: false,
        fin: false,
        rst: false,
        header_len: 20,
    };
    let q = quad_for(&ip, &t);
    assert_eq!(
        q,
        Quad {
            src_addr: 0x0102_0304,
            src_port: 55000,
            dst_addr: 0x0A00_0001,
            dst_port: 4000,
        }
    );
}

#[test]
fn syn_to_vacant_flow_opens_connection() {
    let mut table = FlowTable::new();
    let syn = datagram(PEER, LOCAL, 6, 55000, 4000, 1000, 0, SYN, 4096, &[]);
    let r = process_datagram(&mut table, &syn).unwrap();
    assert_eq!(table.connections.len(), 1);
    assert!(matches!(table.connections[0].1.state, State::SynRcvd));
    assert_eq!(r.out.len(), 1);
    assert!(!r.unsupported);
    let (ip, tcp) = decode_headers(&r.out[0]).unwrap();
    assert_eq!(ip.source, LOCAL);
    assert_eq!(ip.destination, PEER);
    assert!(tcp.syn && tcp.ack);
    assert_eq!(tcp.sequence_number, 0);
    assert_eq!(tcp.acknowledgment_number, 1001);
}

#[test]
fn non_syn_to_vacant_flow_dropped() {
    let mut table = FlowTable::new();
    let ack = datagram(PEER, LOCAL, 6, 55000, 4000, 1000, 1, ACK, 4096, &[]);
    let r = process_datagram(&mut table, &ack).unwrap();
    assert_eq!(table.connections.len(), 0);
    assert!(r.out.is_empty());
    assert!(!r.unsupported);
}

#[test]
fn handshake_through_demultiplexer() {
    let mut table = FlowTable::new();
    let syn = datagram(PEER, LOCAL, 6, 55000, 4000, 1000, 0, SYN, 4096, &[]);
    process_datagram(&mut table, &syn).unwrap();
    let ack = datagram(PEER, LOCAL, 6, 55000, 4000, 1001, 1, ACK, 4096, &[]);
    let r = process_datagram(&mut table, &ack).unwrap();
    assert_eq!(table.connections.len(), 1);
    assert!(matches!(table.connections[0].1.state, State::FinWait1));
    assert_eq!(r.out.len(), 1);
    let (_, tcp) = decode_headers(&r.out[0]).unwrap();
    assert!(tcp.fin);
}

#[test]
fn flows_are_kept_apart() {
    let mut table = FlowTable::new();
    let syn_a = datagram(PEER, LOCAL, 6, 55000, 4000, 1000, 0, SYN, 4096, &[]);
    let syn_b = datagram(PEER, LOCAL, 6, 55001, 4000, 7000, 0, SYN, 4096, &[]);
    process_datagram(&mut table, &syn_a).unwrap();
    process_datagram(&mut table, &syn_b).unwrap();
    assert_eq!(table.connections.len(), 2);
    // advance only the second flow
    let ack_b = datagram(PEER, LOCAL, 6, 55001, 4000, 7001, 1, ACK, 4096, &[]);
    process_datagram(&mut table, &ack_b).unwrap();
    let a = table
        .connections
        .iter()
        .find(|e| e.0.src_port == 55000)
        .unwrap();
    let b = table
        .connections
        .iter()
        .find(|e| e.0.src_port == 55001)
        .unwrap();
    assert!(matches!(a.1.state, State::SynRcvd));
    assert!(matches!(b.1.state, State::FinWait1));
}

#[test]
fn full_close_through_demultiplexer() {
    let mut table = FlowTable::new();
    for d in [
        datagram(PEER, LOCAL, 6, 55000, 4000, 1000, 0, SYN, 4096, &[]),
        datagram(PEER, LOCAL, 6, 55000, 4000, 1001, 1, ACK, 4096, &[]),
        datagram(PEER, LOCAL, 6, 55000, 4000, 1001, 2, ACK, 4096, &[]),
        datagram(PEER, LOCAL, 6, 55000, 4000, 1001, 2, FIN | ACK, 4096, &[]),
    ] {
        let r = process_datagram(&mut table, &d).unwrap();
        assert!(!r.unsupported);
    }
    assert_eq!(table.connections.len(), 1);
    assert!(matches!(table.connections[0].1.state, State::TimeWait));
    assert_eq!(table.connections[0].1.recv.nxt, 1002);
}

#[test]
fn non_tcp_traffic_dropped_silently() {
    let mut table = FlowTable::new();
    let udp = datagram(PEER, LOCAL, 17, 55000, 4000, 0, 0, 0, 0, &[1, 2, 3]);
    let r = process_datagram(&mut table, &udp).unwrap();
    assert!(r.out.is_empty());
    assert_eq!(table.connections.len(), 0);
}

#[test]
fn malformed_ipv4_header_reported() {
    let mut table = FlowTable::new();
    // too short for any IPv4 header
    let r = process_datagram(&mut table, &[0x45, 0, 0]);
    assert_eq!(r.unwrap_err(), DecodeError::MalformedIpv4Header);
    // wrong version nibble
    let mut bad = datagram(PEER, LOCAL, 6, 55000, 4000, 0, 0, SYN, 0, &[]);
    bad[0] = 0x65;
    let r = process_datagram(&mut table, &bad);
    assert_eq!(r.unwrap_err(), DecodeError::MalformedIpv4Header);
    assert_eq!(table.connections.len(), 0);
}

#[test]
fn malformed_tcp_header_reported() {
    let mut table = FlowTable::new();
    // a valid IPv4 header whose payload is too short for a TCP header
    let mut d = datagram(PEER, LOCAL, 6, 55000, 4000, 0, 0, SYN, 0, &[]);
    d.truncate(30);
    d[2] = 0;
    d[3] = 30;
    let r = process_datagram(&mut table, &d);
    assert_eq!(r.unwrap_err(), DecodeError::MalformedTcpHeader);
    assert_eq!(table.connections.len(), 0);
}
