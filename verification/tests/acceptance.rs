//! Window-acceptance behavior: the modular comparison itself and the
//! per-segment acceptance policy, including its boundary cases.

use trust::seqnum::is_between_wrapped;
use trust::tcp::{Connection, ReceiveSequenceSpace, SendSequenceSpace, State};
use trust::wire::{Ipv4Fields, Ipv4Template, TcpFields, TcpTemplate};

fn established(recv_nxt: u32, recv_wnd: u16) -> Connection {
    Connection {
        state: State::Established,
        send: SendSequenceSpace {
            una: 0,
            nxt: 1,
            wnd: 10,
            up: false,
            wl1: 0,
            wl2: 0,
            iss: 0,
        },
        recv: ReceiveSequenceSpace {
            nxt: recv_nxt,
            wnd: recv_wnd,
            up: false,
            irs: 0,
        },
        iphr: Ipv4Template {
            payload_len: 0,
            time_to_live: 64,
            protocol: 6,
            source: [10, 0, 0, 1],
            destination: [1, 2, 3, 4],
        },
        tcp: TcpTemplate {
            source_port: 4000,
            destination_port: 55000,
            sequence_number: 0,
            acknowledgment_number: 0,
            window_size: 10,
            syn: false,
            ack: true,
            fin: false,
            rst: false,
        },
    }
}

fn segment(seq: u32, ack_no: u32, ack: bool, fin: bool) -> TcpFields {
    TcpFields {
        source_port: 55000,
        destination_port: 4000,
        sequence_number: seq,
        acknowledgment_number: ack_no,
        window_size: 4096,
        syn: false,
        ack,
        fin,
        rst: false,
        header_len: 20,
    }
}

fn peer_ip() -> Ipv4Fields {
    Ipv4Fields {
        source: [1, 2, 3, 4],
        destination: [10, 0, 0, 1],
        protocol: 6,
        header_len: 20,
    }
}

#[test]
fn accepts_never_admits_window_base() {
    for &(a, c) in &[(0u32, 0u32), (5, 9), (5, 3), (0xFFFF_FFFF, 2), (7, 7)] {
        assert!(!is_between_wrapped(a, a, c));
    }
}

#[test]
fn accepts_never_admits_window_end() {
    for &(a, c) in &[(5u32, 7u32), (7, 5), (0, 0xFFFF_FFFF), (3, 3)] {
        assert!(!is_between_wrapped(a, c, c));
    }
}

#[test]
fn arc_antisymmetry_example() {
    // x above both ends
    assert!(is_between_wrapped(3, 5, 1));
    assert!(!is_between_wrapped(1, 5, 3));
    // window end below x: the forward arc from 1 holds 3, the wrapped arc
    // from 5 does not
    assert!(is_between_wrapped(1, 3, 5));
    assert!(!is_between_wrapped(5, 3, 1));
    // a wrapped window holding x, and its reverse
    assert!(is_between_wrapped(5, 7, 2));
    assert!(!is_between_wrapped(2, 7, 5));
}

#[test]
fn wrapped_arc_honours_window_end() {
    // x unsigned-below start is accepted only when the arc wraps and x
    // still precedes the end
    assert!(!is_between_wrapped(5, 3, 7));
    assert!(is_between_wrapped(0xFFFF_FFFE, 2, 4));
    assert!(!is_between_wrapped(0xFFFF_FFFE, 2, 1));
}

#[test]
fn wraparound_segment_accepted() {
    // recv.nxt at the top of the circle, a window of 4 reaching past zero:
    // a one-byte segment at sequence 2 lands inside it
    let mut c = established(0xFFFF_FFFF, 4);
    let payload = [0u8; 1];
    let ip = peer_ip();
    let r = c.on_packet(&ip, &segment(2, 0, false, false), &payload);
    assert_eq!(c.recv.nxt, 3); // advanced: the segment was accepted
    assert!(r.out.is_empty()); // no ACK flag, so processing stopped there
    assert!(!r.unsupported);
}

#[test]
fn zero_window_rejects_data() {
    let mut c = established(1000, 0);
    let payload = [0u8; 1];
    let ip = peer_ip();
    let r = c.on_packet(&ip, &segment(1000, 1, true, false), &payload);
    assert_eq!(c.recv.nxt, 1000); // untouched: rejected
    assert_eq!(c.send.una, 0);
    assert!(r.out.is_empty());
    assert!(matches!(c.state, State::Established));
}

#[test]
fn zero_window_zero_length_at_nxt_accepted() {
    let mut c = established(1000, 0);
    let ip = peer_ip();
    // seq == recv.nxt: accepted, and the valid ACK drives the close stub
    let r = c.on_packet(&ip, &segment(1000, 1, true, false), &[]);
    assert_eq!(c.send.una, 1);
    assert!(matches!(c.state, State::FinWait1));
    assert_eq!(r.out.len(), 1);
}

#[test]
fn zero_window_zero_length_off_nxt_rejected() {
    let mut c = established(1000, 0);
    let ip = peer_ip();
    let r = c.on_packet(&ip, &segment(1001, 1, true, false), &[]);
    assert_eq!(c.send.una, 0);
    assert!(matches!(c.state, State::Established));
    assert!(r.out.is_empty());
}

#[test]
fn stale_segment_dropped() {
    // a segment that fell behind the window base does not rewind recv.nxt
    let mut c = established(5000, 10);
    let payload = [0u8; 1];
    let ip = peer_ip();
    let r = c.on_packet(&ip, &segment(3000, 1, false, false), &payload);
    assert_eq!(c.recv.nxt, 5000);
    assert!(r.out.is_empty());
    assert!(matches!(c.state, State::Established));
}

#[test]
fn out_of_window_segment_dropped() {
    // recv.nxt = 5000, window 10: sequence 6000 with 4 bytes lies outside
    let mut c = established(5000, 10);
    let payload = [0u8; 4];
    let ip = peer_ip();
    let r = c.on_packet(&ip, &segment(6000, 1, true, false), &payload);
    assert_eq!(c.recv.nxt, 5000);
    assert_eq!(c.send.una, 0);
    assert!(matches!(c.state, State::Established));
    assert!(r.out.is_empty());
    assert!(!r.unsupported);
}

#[test]
fn state_labels_synchronized() {
    assert!(!State::SynRcvd.is_synchronized());
    assert!(State::Established.is_synchronized());
    assert!(State::FinWait1.is_synchronized());
    assert!(State::FinWait2.is_synchronized());
    assert!(State::Closing.is_synchronized());
    assert!(State::TimeWait.is_synchronized());
}
