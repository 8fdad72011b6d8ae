//! The per-connection TCP state machine: passive open, sequence-space
//! bookkeeping, window acceptance, state transitions and outbound segment
//! synthesis.
//!
//! Every transition is specified by a spec-level step function
//! ([`on_segment_spec`]) and the executable handler is proved to realise it
//! exactly. Outbound datagrams are described as the named encodings of the
//! header templates they are built from.

use vstd::prelude::*;

use crate::seqnum::{accepts, is_between_wrapped, wrap_add, wrap_dist, wrap_sub};
use crate::wire::{
    encode_ipv4_header, encode_tcp_header, ipv4_header_bytes, tcp_header_bytes, Ipv4Fields,
    Ipv4Template, TcpFields, TcpTemplate,
};

verus! {

/// Connection lifecycle label. `Closed` and `Listen` are implicit: a flow
/// absent from the demultiplexer table is closed, and the table's
/// willingness to accept new SYNs stands for listen.
#[derive(Clone, Copy)]
pub enum State {
    SynRcvd,
    Established,
    FinWait1,
    FinWait2,
    Closing,
    TimeWait,
}

impl State {
    /// All states past `SynRcvd` are synchronized: the peer's initial
    /// sequence number is known and our own has been acknowledged.
    pub open spec fn spec_is_synchronized(&self) -> bool {
        !(self is SynRcvd)
    }

    pub fn is_synchronized(&self) -> (r: bool)
        ensures
            r == self.spec_is_synchronized(),
    {
        match *self {
            State::SynRcvd => false,
            State::Established
            | State::FinWait1
            | State::FinWait2
            | State::Closing
            | State::TimeWait => true,
        }
    }

    /// Position in the connection lifecycle; the handler never decreases it.
    pub open spec fn rank(self) -> int {
        match self {
            State::SynRcvd => 0,
            State::Established => 1,
            State::FinWait1 => 2,
            State::FinWait2 => 3,
            State::Closing => 4,
            State::TimeWait => 5,
        }
    }
}

/// Send sequence space (all sequence numbers modulo 2^32).
#[derive(Clone, Copy)]
pub struct SendSequenceSpace {
    /// send unacknowledged
    pub una: u32,
    /// send next
    pub nxt: u32,
    /// peer-advertised receive window
    pub wnd: u16,
    /// send urgent flag
    pub up: bool,
    /// segment sequence number used for the last window update
    pub wl1: usize,
    /// segment acknowledgment number used for the last window update
    pub wl2: usize,
    /// initial send sequence number
    pub iss: u32,
}

/// Receive sequence space (all sequence numbers modulo 2^32).
#[derive(Clone, Copy)]
pub struct ReceiveSequenceSpace {
    /// receive next: the next sequence number expected from the peer
    pub nxt: u32,
    /// receive window
    pub wnd: u16,
    /// receive urgent flag
    pub up: bool,
    /// initial receive sequence number (from the peer's SYN)
    pub irs: u32,
}

/// Per-flow connection record: the state label, both sequence spaces, and
/// the cached reverse-direction header templates that outbound segments are
/// synthesized from.
#[derive(Clone, Copy)]
pub struct Connection {
    pub state: State,
    pub send: SendSequenceSpace,
    pub recv: ReceiveSequenceSpace,
    pub iphr: Ipv4Template,
    pub tcp: TcpTemplate,
}

/// What the handler hands back for one inbound segment.
#[derive(Debug)]
pub struct PacketResult {
    /// Encoded IPv4 datagrams to transmit, in emission order.
    pub out: Vec<Vec<u8>>,
    /// True when the segment drove the connection into a transition the
    /// core does not implement (a peer FIN outside `FinWait2`); the caller
    /// is expected to abort, as this is an implementation gap.
    pub unsupported: bool,
}

/// Payload bytes actually written by `write`: the outbound buffer holds
/// 1500 bytes, of which the two headers take 40.
pub open spec fn clamp_payload(len: int) -> int {
    if len < 1460 {
        len
    } else {
        1460
    }
}

/// Sequence numbers the pending SYN/FIN flags of a cached header consume.
pub open spec fn phantoms(t: TcpTemplate) -> int {
    (if t.syn {
        1int
    } else {
        0int
    }) + (if t.fin {
        1int
    } else {
        0int
    })
}

/// Sequence-number length of an inbound segment: its data plus one phantom
/// byte for SYN and one for FIN.
pub open spec fn seg_len(t: TcpFields, data_len: int) -> int {
    data_len + (if t.syn {
        1int
    } else {
        0int
    }) + (if t.fin {
        1int
    } else {
        0int
    })
}

/// The per-segment acceptance policy over the receive space: whether a
/// segment with first sequence number `seq` and sequence length `slen` lies
/// in the advertised window.
pub open spec fn segment_acceptable(rcv: ReceiveSequenceSpace, seq: u32, slen: int) -> bool {
    let wend = wrap_add(rcv.nxt, rcv.wnd as u32);
    if slen == 0 {
        if rcv.wnd == 0 {
            seq == rcv.nxt
        } else {
            accepts(wrap_sub(rcv.nxt, 1), seq, wend)
        }
    } else {
        if rcv.wnd == 0 {
            false
        } else {
            accepts(wrap_sub(rcv.nxt, 1), seq, wend) || accepts(
                wrap_sub(rcv.nxt, 1),
                wrap_add(seq, (slen - 1) as u32),
                wend,
            )
        }
    }
}

/// The TCP header a call of `write` emits: the cached template stamped
/// with the current `send.nxt` and `recv.nxt`.
pub open spec fn write_emitted_tcp(c: Connection) -> TcpTemplate {
    TcpTemplate { sequence_number: c.send.nxt, acknowledgment_number: c.recv.nxt, ..c.tcp }
}

/// The outbound segment `write` emits with an empty payload, and the
/// connection as it stands afterwards: sequence and acknowledgment fields
/// stamped from the spaces, the IPv4 length set to the two headers, the
/// one-shot SYN/FIN flags consumed into `send.nxt`.
pub open spec fn write_empty_spec(c: Connection) -> (Connection, Seq<u8>) {
    let emitted = write_emitted_tcp(c);
    let iphr2 = (Ipv4Template { payload_len: 20u16, ..c.iphr });
    let c2 = (Connection {
        tcp: (TcpTemplate { syn: false, fin: false, ..emitted }),
        iphr: iphr2,
        send: (SendSequenceSpace {
            nxt: wrap_add(c.send.nxt, phantoms(c.tcp) as u32),
            ..c.send
        }),
        ..c
    });
    (c2, ipv4_header_bytes(iphr2) + tcp_header_bytes(emitted))
}

/// The reset segment and the connection afterwards: RST set in the cached
/// header, sequence and acknowledgment zeroed, IPv4 length header-only.
pub open spec fn send_rst_spec(c: Connection) -> (Connection, Seq<u8>) {
    let tcp2 = (TcpTemplate {
        rst: true,
        sequence_number: 0u32,
        acknowledgment_number: 0u32,
        ..c.tcp
    });
    let iphr2 = (Ipv4Template { payload_len: 20u16, ..c.iphr });
    let c2 = (Connection { tcp: tcp2, iphr: iphr2, ..c });
    (c2, ipv4_header_bytes(iphr2) + tcp_header_bytes(tcp2))
}

/// Handler result at the spec level: the connection afterwards, the encoded
/// datagrams emitted in order, and whether an unimplemented transition was
/// reached.
pub struct StepOutcome {
    pub conn: Connection,
    pub out: Seq<Seq<u8>>,
    pub unsupported: bool,
}

/// Late handler stages: retire our FIN once `send.una` reaches `iss + 2`
/// (SYN phantom and FIN phantom both acknowledged), then process a peer
/// FIN, which the core implements only in `FinWait2`.
pub open spec fn tail_step(c: Connection, t: TcpFields) -> StepOutcome {
    let c1 = if c.state is FinWait1 && c.send.una == wrap_add(c.send.iss, 2) {
        (Connection { state: State::FinWait2, ..c })
    } else {
        c
    };
    if t.fin {
        if c1.state is FinWait2 {
            let (c2, seg) = write_empty_spec(c1);
            StepOutcome {
                conn: (Connection { state: State::TimeWait, ..c2 }),
                out: seq![seg],
                unsupported: false,
            }
        } else {
            StepOutcome { conn: c1, out: seq![], unsupported: true }
        }
    } else {
        StepOutcome { conn: c1, out: seq![], unsupported: false }
    }
}

/// `Established` handling: on an acceptable acknowledgment, take it, then
/// immediately initiate close (the application stub): cache the FIN flag,
/// emit an empty write and move to `FinWait1`, then run the late stages.
/// An unacceptable acknowledgment drops the segment.
pub open spec fn established_step(c: Connection, t: TcpFields) -> StepOutcome {
    let ackn = t.acknowledgment_number;
    if !accepts(c.send.una, ackn, wrap_add(c.send.nxt, 1)) {
        StepOutcome { conn: c, out: seq![], unsupported: false }
    } else {
        let c1 = (Connection {
            send: (SendSequenceSpace { una: ackn, ..c.send }),
            tcp: (TcpTemplate { fin: true, ..c.tcp }),
            ..c
        });
        let (c2, seg) = write_empty_spec(c1);
        let rest = tail_step((Connection { state: State::FinWait1, ..c2 }), t);
        StepOutcome {
            conn: rest.conn,
            out: seq![seg] + rest.out,
            unsupported: rest.unsupported,
        }
    }
}

/// Acknowledgment processing for a segment that carries ACK. In `SynRcvd` a
/// valid acknowledgment of our SYN synchronizes the connection and falls
/// through to `Established` handling; an invalid one is answered with RST.
/// In the later synchronized states an acceptable acknowledgment advances
/// `send.una` and processing continues with the late stages either way.
pub open spec fn ack_step(c: Connection, t: TcpFields) -> StepOutcome {
    let ackn = t.acknowledgment_number;
    if c.state is SynRcvd {
        if accepts(wrap_sub(c.send.una, 1), ackn, wrap_add(c.send.nxt, 1)) {
            established_step((Connection { state: State::Established, ..c }), t)
        } else {
            let (c2, seg) = send_rst_spec(c);
            StepOutcome { conn: c2, out: seq![seg], unsupported: false }
        }
    } else if c.state is Established {
        established_step(c, t)
    } else {
        let c1 = if accepts(c.send.una, ackn, wrap_add(c.send.nxt, 1)) {
            (Connection { send: (SendSequenceSpace { una: ackn, ..c.send }), ..c })
        } else {
            c
        };
        tail_step(c1, t)
    }
}

/// The whole inbound step for an existing flow: window acceptance, receive
/// pointer advance, then acknowledgment processing.
pub open spec fn on_segment_spec(c: Connection, t: TcpFields, data_len: int) -> StepOutcome {
    let slen = seg_len(t, data_len);
    if !segment_acceptable(c.recv, t.sequence_number, slen) {
        StepOutcome { conn: c, out: seq![], unsupported: false }
    } else {
        let c1 = (Connection {
            recv: (ReceiveSequenceSpace {
                nxt: wrap_add(t.sequence_number, slen as u32),
                ..c.recv
            }),
            ..c
        });
        if !t.ack {
            StepOutcome { conn: c1, out: seq![], unsupported: false }
        } else {
            ack_step(c1, t)
        }
    }
}

/// The connection a passive open creates for a SYN, and the SYN|ACK
/// datagram emitted for it: spaces initialized from the peer's SYN with
/// `iss = 0` and a local window of 10, templates with addresses and ports
/// reversed, and the first empty write consuming the SYN phantom.
pub open spec fn accept_spec(iph: Ipv4Fields, t: TcpFields) -> (Connection, Seq<u8>) {
    let c0 = (Connection {
        state: State::SynRcvd,
        recv: (ReceiveSequenceSpace {
            irs: t.sequence_number,
            nxt: wrap_add(t.sequence_number, 1),
            wnd: t.window_size,
            up: false,
        }),
        send: (SendSequenceSpace {
            iss: 0u32,
            una: 0u32,
            nxt: 0u32,
            wnd: 10u16,
            up: false,
            wl1: 0usize,
            wl2: 0usize,
        }),
        tcp: (TcpTemplate {
            source_port: t.destination_port,
            destination_port: t.source_port,
            sequence_number: 0u32,
            acknowledgment_number: 0u32,
            window_size: 10u16,
            syn: true,
            ack: true,
            fin: false,
            rst: false,
        }),
        iphr: (Ipv4Template {
            payload_len: 0u16,
            time_to_live: 64u8,
            protocol: 6u8,
            source: iph.destination,
            destination: iph.source,
        }),
    });
    write_empty_spec(c0)
}

impl Connection {
    /// Passive open: answer an inbound SYN on a vacant flow with a new
    /// `SynRcvd` connection and its SYN|ACK datagram; anything without SYN
    /// is dropped.
    pub fn accept(iph: &Ipv4Fields, tcph: &TcpFields, _data: &[u8]) -> (r: Option<
        (Connection, Vec<u8>),
    >)
        ensures
            r is Some <==> tcph.syn,
            tcph.syn ==> (r matches Some(p) && p.0 == accept_spec(*iph, *tcph).0 && p.1@
                == accept_spec(*iph, *tcph).1),
    {
        if !tcph.syn {
            return None;
        }
        let iss: u32 = 0;
        let wnd: u16 = 10;
        let mut c = Connection {
            state: State::SynRcvd,
            recv: ReceiveSequenceSpace {
                irs: tcph.sequence_number,
                nxt: tcph.sequence_number.wrapping_add(1),
                wnd: tcph.window_size,
                up: false,
            },
            send: SendSequenceSpace {
                iss,
                una: iss,
                nxt: iss,
                wnd: 10,
                up: false,
                wl1: 0,
                wl2: 0,
            },
            tcp: TcpTemplate {
                source_port: tcph.destination_port,
                destination_port: tcph.source_port,
                sequence_number: iss,
                acknowledgment_number: 0,
                window_size: wnd,
                syn: true,
                ack: true,
                fin: false,
                rst: false,
            },
            iphr: Ipv4Template {
                payload_len: 0,
                time_to_live: 64,
                protocol: 6,
                source: iph.destination,
                destination: iph.source,
            },
        };
        let empty: Vec<u8> = Vec::new();
        let (seg, _n) = c.write(empty.as_slice());
        proof {
            assert(seg@ =~= accept_spec(*iph, *tcph).1);
        }
        Some((c, seg))
    }

    /// Synthesize and hand back one outbound datagram: both headers
    /// followed by as much of `payload` as the 1500-byte outbound buffer
    /// holds. Stamps the cached TCP header with `send.nxt` / `recv.nxt`,
    /// sets the IPv4 length, advances `send.nxt` by the bytes written plus
    /// any pending one-shot SYN/FIN phantom, and clears those flags.
    /// Returns the datagram and the number of payload bytes it carries.
    pub fn write(&mut self, payload: &[u8]) -> (r: (Vec<u8>, usize))
        ensures
            ({
                let n = clamp_payload(payload@.len() as int);
                let emitted = write_emitted_tcp(*old(self));
                let iphr2 = (Ipv4Template {
                    payload_len: (20 + n) as u16,
                    ..old(self).iphr
                });
                &&& r.1 == n
                &&& *final(self) == (Connection {
                    tcp: (TcpTemplate { syn: false, fin: false, ..emitted }),
                    iphr: iphr2,
                    send: (SendSequenceSpace {
                        nxt: wrap_add(old(self).send.nxt, (n + phantoms(old(self).tcp)) as u32),
                        ..old(self).send
                    }),
                    ..*old(self)
                })
                &&& r.0@ == ipv4_header_bytes(iphr2) + tcp_header_bytes(emitted) + payload@.take(n)
            }),
    {
        self.tcp.sequence_number = self.send.nxt;
        self.tcp.acknowledgment_number = self.recv.nxt;
        let n: usize = if payload.len() < 1460 {
            payload.len()
        } else {
            1460
        };
        self.iphr.payload_len = 20 + (n as u16);
        let mut out = encode_ipv4_header(&self.iphr);
        let mut tcpb = encode_tcp_header(&self.tcp);
        out.append(&mut tcpb);
        let ghost base = out@;
        proof {
            assert(out@ =~= base + payload@.take(0));
        }
        let mut i: usize = 0;
        while i < n
            invariant
                i <= n,
                n <= payload@.len(),
                out@ == base + payload@.take(i as int),
            decreases n - i,
        {
            out.push(payload[i]);
            proof {
                assert(out@ =~= base + payload@.take(i + 1));
            }
            i += 1;
        }
        self.send.nxt = self.send.nxt.wrapping_add(n as u32);
        if self.tcp.syn {
            self.send.nxt = self.send.nxt.wrapping_add(1);
            self.tcp.syn = false;
        }
        if self.tcp.fin {
            self.send.nxt = self.send.nxt.wrapping_add(1);
            self.tcp.fin = false;
        }
        (out, n)
    }

    /// Synthesize a reset: RST goes into the cached header, sequence and
    /// acknowledgment are zeroed, and the header-only datagram is handed
    /// back. Used when `SynRcvd` sees an unacceptable acknowledgment.
    pub fn send_rst(&mut self) -> (r: Vec<u8>)
        ensures
            *final(self) == send_rst_spec(*old(self)).0,
            r@ == send_rst_spec(*old(self)).1,
    {
        self.tcp.rst = true;
        self.tcp.sequence_number = 0;
        self.tcp.acknowledgment_number = 0;
        self.iphr.payload_len = 20;
        let mut out = encode_ipv4_header(&self.iphr);
        let mut tcpb = encode_tcp_header(&self.tcp);
        out.append(&mut tcpb);
        out
    }

    /// The inbound handler for an existing flow: realises
    /// [`on_segment_spec`] exactly. Unacceptable segments and segments
    /// without ACK are dropped after at most the receive-pointer advance;
    /// acknowledgment processing may emit a RST, our FIN, or the final ACK
    /// of the peer's FIN.
    pub fn on_packet(&mut self, _iph: &Ipv4Fields, tcph: &TcpFields, data: &[u8]) -> (r:
        PacketResult)
        requires
            data@.len() <= 65495,
        ensures
            ({
                let o = on_segment_spec(*old(self), *tcph, data@.len() as int);
                &&& *final(self) == o.conn
                &&& r.unsupported == o.unsupported
                &&& r.out@.len() == o.out.len()
                &&& forall|i: int| 0 <= i < o.out.len() ==> r.out@[i]@ == o.out[i]
            }),
    {
        let seqn = tcph.sequence_number;
        let mut slen: u32 = data.len() as u32;
        if tcph.fin {
            slen = slen + 1;
        }
        if tcph.syn {
            slen = slen + 1;
        }
        let wend = self.recv.nxt.wrapping_add(self.recv.wnd as u32);
        let acceptable: bool = if slen == 0 {
            if self.recv.wnd == 0 {
                seqn == self.recv.nxt
            } else {
                is_between_wrapped(self.recv.nxt.wrapping_sub(1), seqn, wend)
            }
        } else {
            if self.recv.wnd == 0 {
                false
            } else {
                is_between_wrapped(self.recv.nxt.wrapping_sub(1), seqn, wend)
                    || is_between_wrapped(
                    self.recv.nxt.wrapping_sub(1),
                    seqn.wrapping_add(slen - 1),
                    wend,
                )
            }
        };
        proof {
            assert(acceptable == segment_acceptable(
                old(self).recv,
                seqn,
                seg_len(*tcph, data@.len() as int),
            ));
        }
        if !acceptable {
            return PacketResult { out: Vec::new(), unsupported: false };
        }
        self.recv.nxt = seqn.wrapping_add(slen);
        if !tcph.ack {
            return PacketResult { out: Vec::new(), unsupported: false };
        }
        let ackn = tcph.acknowledgment_number;
        let mut out: Vec<Vec<u8>> = Vec::new();

        if let State::SynRcvd = self.state {
            if is_between_wrapped(
                self.send.una.wrapping_sub(1),
                ackn,
                self.send.nxt.wrapping_add(1),
            ) {
                self.state = State::Established;
            } else {
                let seg = self.send_rst();
                out.push(seg);
                return PacketResult { out, unsupported: false };
            }
        }
        if let State::Established = self.state {
            if !is_between_wrapped(self.send.una, ackn, self.send.nxt.wrapping_add(1)) {
                return PacketResult { out, unsupported: false };
            }
            self.send.una = ackn;
            self.tcp.fin = true;
            let empty: Vec<u8> = Vec::new();
            let (seg, _n) = self.write(empty.as_slice());
            out.push(seg);
            self.state = State::FinWait1;
        } else {
            // a later synchronized state: take an acceptable acknowledgment,
            // keep processing either way
            if is_between_wrapped(self.send.una, ackn, self.send.nxt.wrapping_add(1)) {
                self.send.una = ackn;
            }
        }
        if let State::FinWait1 = self.state {
            if self.send.una == self.send.iss.wrapping_add(2) {
                // our FIN has been acknowledged
                self.state = State::FinWait2;
            }
        }
        if tcph.fin {
            if let State::FinWait2 = self.state {
                // the peer is done with the connection: acknowledge its FIN
                let empty: Vec<u8> = Vec::new();
                let (seg, _n) = self.write(empty.as_slice());
                out.push(seg);
                self.state = State::TimeWait;
            } else {
                return PacketResult { out, unsupported: true };
            }
        }
        PacketResult { out, unsupported: false }
    }
}

/// With a zero receive window, a segment that consumes sequence space is
/// never acceptable, whatever its sequence number.
pub proof fn lemma_zero_window_rejects(rcv: ReceiveSequenceSpace, seq: u32, slen: int)
    requires
        rcv.wnd == 0,
        slen > 0,
    ensures
        !segment_acceptable(rcv, seq, slen),
{
}

/// With a zero receive window, a zero-length segment is acceptable exactly
/// when its sequence number equals `recv.nxt`.
pub proof fn lemma_zero_window_zero_len(rcv: ReceiveSequenceSpace, seq: u32)
    requires
        rcv.wnd == 0,
    ensures
        segment_acceptable(rcv, seq, 0) <==> seq == rcv.nxt,
{
}

/// The handler never moves the state label backward in the lifecycle:
/// whatever segment arrives, the state's rank does not decrease. In
/// particular a duplicate SYN cannot regress an already-`SynRcvd` flow.
pub proof fn lemma_state_no_regress(c: Connection, t: TcpFields, data_len: int)
    ensures
        on_segment_spec(c, t, data_len).conn.state.rank() >= c.state.rank(),
{
}

/// `recv.nxt` never moves backward: one handler step moves it forward by
/// less than 2^31 on the sequence circle, for every segment the interface
/// can deliver. An accepted segment starts, or ends, inside the advertised
/// window, so the new pointer sits at most a window plus a segment ahead
/// of the old one.
pub proof fn lemma_recv_nxt_no_regress(c: Connection, t: TcpFields, data_len: int)
    requires
        0 <= data_len <= 65495,
    ensures
        wrap_dist(c.recv.nxt, on_segment_spec(c, t, data_len).conn.recv.nxt) < 0x8000_0000,
{
}

/// After a handler step, the current `send.una` still lies just inside its
/// own acceptance window: `accepts(send.una - 1, send.una, send.nxt + 1)`.
/// The hypotheses are the same property on entry and a cached header with
/// no SYN/FIN phantom still pending — both hold of every connection the
/// library creates: `accept` establishes them (its opening write consumes
/// the SYN), and the handler preserves them ([`lemma_no_pending_phantoms`]).
pub proof fn lemma_una_in_window_after_step(c: Connection, t: TcpFields, data_len: int)
    requires
        accepts(wrap_sub(c.send.una, 1), c.send.una, wrap_add(c.send.nxt, 1)),
        !c.tcp.syn,
        !c.tcp.fin,
    ensures
        ({
            let c2 = on_segment_spec(c, t, data_len).conn;
            accepts(wrap_sub(c2.send.una, 1), c2.send.una, wrap_add(c2.send.nxt, 1))
        }),
{
}

/// The cached header's one-shot flags are consumed within the same handler
/// run that raises them: a connection whose template carries no pending
/// SYN or FIN still carries none after any inbound step. With `accept`'s
/// contract (the opening write clears both), this makes the phantom-free
/// hypothesis of [`lemma_una_in_window_after_step`] an invariant of every
/// connection the library creates.
pub proof fn lemma_no_pending_phantoms(c: Connection, t: TcpFields, data_len: int)
    requires
        !c.tcp.syn,
        !c.tcp.fin,
    ensures
        ({
            let c2 = on_segment_spec(c, t, data_len).conn;
            !c2.tcp.syn && !c2.tcp.fin
        }),
{
}

/// A fresh passive open also leaves `send.una` just inside its acceptance
/// window.
pub proof fn lemma_accept_una_in_window(iph: Ipv4Fields, t: TcpFields)
    ensures
        ({
            let c = accept_spec(iph, t).0;
            accepts(wrap_sub(c.send.una, 1), c.send.una, wrap_add(c.send.nxt, 1))
        }),
{
}

/// Every segment `write` emits carries the sequence number `send.nxt` held
/// before the call, which lies inside the interval of sequence numbers the
/// call consumes whenever that interval is nonempty.
pub proof fn lemma_write_seq_in_window(c: Connection, payload_len: int)
    requires
        payload_len >= 0,
        clamp_payload(payload_len) + phantoms(c.tcp) >= 1,
    ensures
        wrap_dist(c.send.nxt, write_emitted_tcp(c).sequence_number) == 0,
        wrap_dist(c.send.nxt, write_emitted_tcp(c).sequence_number) < clamp_payload(payload_len)
            + phantoms(c.tcp),
{
}

} // verus!



