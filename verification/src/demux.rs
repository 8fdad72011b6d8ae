//! The demultiplexer: one table from flow identifier to connection record,
//! and the per-datagram dispatch — parse, classify, route to the existing
//! connection or attempt a passive open.

use vstd::prelude::*;
use vstd::slice::slice_subrange;

use crate::tcp::{accept_spec, on_segment_spec, Connection, PacketResult};
use crate::wire::{ipv4_header_parse, parse_ipv4_header, parse_tcp_header, tcp_header_parse, Ipv4Fields, TcpFields};

verus! {

/// Flow identifier from the receiver's perspective: the inbound segment's
/// source address and port, then its destination address and port.
/// Addresses are held as 32-bit values in network order.
#[derive(Clone, Copy, PartialEq, Eq, Structural, Debug)]
pub struct Quad {
    pub src_addr: u32,
    pub src_port: u16,
    pub dst_addr: u32,
    pub dst_port: u16,
}

/// The 32-bit value of an IPv4 address given as four network-order octets.
pub open spec fn addr_value(a: [u8; 4]) -> u32 {
    (a@[0] * 0x100_0000 + a@[1] * 0x1_0000 + a@[2] * 0x100 + a@[3]) as u32
}

/// Executable form of [`addr_value`].
pub fn addr_key(a: &[u8; 4]) -> (r: u32)
    ensures
        r == addr_value(*a),
{
    (a[0] as u32) * 0x100_0000 + (a[1] as u32) * 0x1_0000 + (a[2] as u32) * 0x100 + (a[3] as u32)
}

/// The flow identifier of a parsed inbound segment, from the receiver's
/// perspective.
pub open spec fn quad_of(iph: Ipv4Fields, tcph: TcpFields) -> Quad {
    Quad {
        src_addr: addr_value(iph.source),
        src_port: tcph.source_port,
        dst_addr: addr_value(iph.destination),
        dst_port: tcph.destination_port,
    }
}

/// Executable form of [`quad_of`].
pub fn quad_for(iph: &Ipv4Fields, tcph: &TcpFields) -> (r: Quad)
    ensures
        r == quad_of(*iph, *tcph),
{
    Quad {
        src_addr: addr_key(&iph.source),
        src_port: tcph.source_port,
        dst_addr: addr_key(&iph.destination),
        dst_port: tcph.destination_port,
    }
}

/// First-match lookup in a key-value sequence.
pub open spec fn table_lookup(s: Seq<(Quad, Connection)>, q: Quad) -> Option<Connection>
    decreases s.len(),
{
    if s.len() == 0 {
        None
    } else if s[0].0 == q {
        Some(s[0].1)
    } else {
        table_lookup(s.drop_first(), q)
    }
}

proof fn lemma_lookup_at_index(s: Seq<(Quad, Connection)>, q: Quad, i: int)
    requires
        0 <= i < s.len(),
        s[i].0 == q,
        forall|k: int| 0 <= k < i ==> s[k].0 != q,
    ensures
        table_lookup(s, q) == Some(s[i].1),
    decreases i,
{
    if i > 0 {
        lemma_lookup_at_index(s.drop_first(), q, i - 1);
    }
}

proof fn lemma_lookup_absent(s: Seq<(Quad, Connection)>, q: Quad)
    requires
        forall|k: int| 0 <= k < s.len() ==> s[k].0 != q,
    ensures
        table_lookup(s, q) is None,
    decreases s.len(),
{
    if s.len() > 0 {
        lemma_lookup_absent(s.drop_first(), q);
    }
}

proof fn lemma_lookup_push(s: Seq<(Quad, Connection)>, q: Quad, k: Quad, v: Connection)
    ensures
        table_lookup(s.push((k, v)), q) == (if table_lookup(s, q) is Some {
            table_lookup(s, q)
        } else if q == k {
            Some(v)
        } else {
            None
        }),
    decreases s.len(),
{
    let sp = s.push((k, v));
    if s.len() > 0 {
        assert(sp[0] == s[0]);
        assert(sp.drop_first() =~= s.drop_first().push((k, v)));
        lemma_lookup_push(s.drop_first(), q, k, v);
        if s[0].0 == q {
            assert(table_lookup(sp, q) == Some(s[0].1));
            assert(table_lookup(s, q) == Some(s[0].1));
        } else {
            assert(table_lookup(sp, q) == table_lookup(sp.drop_first(), q));
            assert(table_lookup(s, q) == table_lookup(s.drop_first(), q));
        }
    } else {
        assert(sp.len() == 1);
        assert(sp[0] == (k, v));
        assert(sp.drop_first() =~= Seq::<(Quad, Connection)>::empty());
        if sp[0].0 == q {
            assert(table_lookup(sp, q) == Some(v));
        } else {
            assert(table_lookup(sp, q) == table_lookup(sp.drop_first(), q));
            assert(table_lookup(sp.drop_first(), q) is None);
        }
        assert(table_lookup(s, q) is None);
    }
}

proof fn lemma_lookup_none_means_absent(s: Seq<(Quad, Connection)>, q: Quad)
    requires
        table_lookup(s, q) is None,
    ensures
        forall|k: int| 0 <= k < s.len() ==> s[k].0 != q,
    decreases s.len(),
{
    if s.len() > 0 {
        lemma_lookup_none_means_absent(s.drop_first(), q);
        assert forall|k: int| 0 <= k < s.len() implies s[k].0 != q by {
            if k > 0 {
                assert(s.drop_first()[k - 1] == s[k]);
            }
        }
    }
}

proof fn lemma_remove_keeps_unique(s: Seq<(Quad, Connection)>, i: int)
    requires
        0 <= i < s.len(),
        forall|a: int, b: int| 0 <= a < b < s.len() ==> s[a].0 != s[b].0,
    ensures
        forall|a: int, b: int|
            0 <= a < b < s.remove(i).len() ==> s.remove(i)[a].0 != s.remove(i)[b].0,
        forall|k: int| 0 <= k < s.remove(i).len() ==> s.remove(i)[k].0 != s[i].0,
{
    s.remove_ensures(i);
}

proof fn lemma_lookup_remove(s: Seq<(Quad, Connection)>, i: int, q: Quad)
    requires
        0 <= i < s.len(),
        forall|a: int, b: int| 0 <= a < b < s.len() ==> s[a].0 != s[b].0,
    ensures
        table_lookup(s.remove(i), q) == (if q == s[i].0 {
            None
        } else {
            table_lookup(s, q)
        }),
    decreases s.len(),
{
    if i == 0 {
        assert(s.remove(0) =~= s.drop_first());
        if q == s[0].0 {
            assert(forall|k: int| 0 <= k < s.drop_first().len() ==> s.drop_first()[k].0 != q);
            lemma_lookup_absent(s.drop_first(), q);
        }
    } else {
        assert(s.remove(i).drop_first() =~= s.drop_first().remove(i - 1));
        lemma_lookup_remove(s.drop_first(), i - 1, q);
    }
}

/// Errors of datagram decoding: the malformed header is named so the caller
/// can log it before dropping the datagram.
#[derive(Clone, Copy, PartialEq, Eq, Structural, Debug)]
pub enum DecodeError {
    MalformedIpv4Header,
    MalformedTcpHeader,
}

/// The demultiplexer table: flow identifier to connection record, keys
/// unique, each record exclusively owned by the table.
pub struct FlowTable {
    pub connections: Vec<(Quad, Connection)>,
}

impl FlowTable {
    /// Keys are unique: at most one record per flow.
    pub open spec fn wf(self) -> bool {
        forall|a: int, b: int|
            0 <= a < b < self.connections@.len() ==> self.connections@[a].0
                != self.connections@[b].0
    }

    /// The record the table holds for flow `q`, if any.
    pub open spec fn flow(self, q: Quad) -> Option<Connection> {
        table_lookup(self.connections@, q)
    }

    pub fn new() -> (r: FlowTable)
        ensures
            r.wf(),
            forall|q: Quad| r.flow(q) is None,
    {
        let t = FlowTable { connections: Vec::new() };
        proof {
            assert forall|q: Quad| t.flow(q) is None by {
                lemma_lookup_absent(t.connections@, q);
            }
        }
        t
    }

    /// Index of the entry for `q`, if present.
    fn find(&self, q: &Quad) -> (r: Option<usize>)
        ensures
            match r {
                Some(i) => i < self.connections@.len() && self.connections@[i as int].0 == *q
                    && self.flow(*q) == Some(self.connections@[i as int].1),
                None => self.flow(*q) is None,
            },
    {
        let n = self.connections.len();
        let mut i: usize = 0;
        while i < n
            invariant
                i <= n,
                n == self.connections@.len(),
                forall|k: int| 0 <= k < i ==> self.connections@[k].0 != *q,
            decreases n - i,
        {
            let e = &self.connections[i];
            if e.0.src_addr == q.src_addr && e.0.src_port == q.src_port && e.0.dst_addr
                == q.dst_addr && e.0.dst_port == q.dst_port {
                proof {
                    assert(self.connections@[i as int].0 == *q);
                    lemma_lookup_at_index(self.connections@, *q, i as int);
                }
                return Some(i);
            }
            i += 1;
        }
        proof {
            lemma_lookup_absent(self.connections@, *q);
        }
        None
    }
}

/// One turn of the main loop, after the read: parse the datagram's IPv4
/// header, drop non-TCP traffic, parse the TCP header, construct the flow
/// identifier from the receiver's perspective and either run the flow's
/// handler or attempt a passive open. Hands back the datagrams to emit;
/// decode failures are reported so the caller can log them.
pub fn process_datagram(table: &mut FlowTable, buf: &[u8]) -> (r: Result<PacketResult, DecodeError>)
    requires
        old(table).wf(),
        buf@.len() <= 65535,
    ensures
        final(table).wf(),
        ({
            let parsed_ip = ipv4_header_parse(buf@);
            match parsed_ip {
                None => {
                    &&& r == Err::<PacketResult, DecodeError>(DecodeError::MalformedIpv4Header)
                    &&& *final(table) == *old(table)
                },
                Some(ip) => {
                    let rest = buf@.subrange(ip.header_len as int, buf@.len() as int);
                    if ip.protocol != 6 {
                        &&& r matches Ok(pr) && pr.out@.len() == 0 && !pr.unsupported
                        &&& *final(table) == *old(table)
                    } else {
                        match tcp_header_parse(rest) {
                            None => {
                                &&& r == Err::<PacketResult, DecodeError>(
                                    DecodeError::MalformedTcpHeader,
                                )
                                &&& *final(table) == *old(table)
                            },
                            Some(t) => {
                                let q = quad_of(ip, t);
                                let data_len = buf@.len() - ip.header_len - t.header_len;
                                match old(table).flow(q) {
                                    Some(c) => {
                                        let o = on_segment_spec(c, t, data_len);
                                        &&& final(table).flow(q) == Some(o.conn)
                                        &&& forall|q2: Quad| q2 != q ==> final(table).flow(q2)
                                            == old(table).flow(q2)
                                        &&& r matches Ok(pr) && pr.unsupported == o.unsupported
                                            && pr.out@.len() == o.out.len() && (forall|i: int|
                                            0 <= i < o.out.len() ==> pr.out@[i]@ == o.out[i])
                                    },
                                    None => {
                                        if t.syn {
                                            let (c, seg) = accept_spec(ip, t);
                                            &&& final(table).flow(q) == Some(c)
                                            &&& forall|q2: Quad| q2 != q ==> final(table).flow(q2)
                                                == old(table).flow(q2)
                                            &&& r matches Ok(pr) && !pr.unsupported
                                                && pr.out@.len() == 1 && pr.out@[0]@ == seg
                                        } else {
                                            &&& *final(table) == *old(table)
                                            &&& r matches Ok(pr) && pr.out@.len() == 0
                                                && !pr.unsupported
                                        }
                                    },
                                }
                            },
                        }
                    }
                },
            }
        }),
{
    let ip = match parse_ipv4_header(buf) {
        None => {
            return Err(DecodeError::MalformedIpv4Header);
        },
        Some(ip) => ip,
    };
    if ip.protocol != 6 {
        // not a TCP packet
        return Ok(PacketResult { out: Vec::new(), unsupported: false });
    }
    let rest = slice_subrange(buf, ip.header_len, buf.len());
    let t = match parse_tcp_header(rest) {
        None => {
            return Err(DecodeError::MalformedTcpHeader);
        },
        Some(t) => t,
    };
    let q = quad_for(&ip, &t);
    let data_start = ip.header_len + t.header_len;
    let data = slice_subrange(buf, data_start, buf.len());
    match table.find(&q) {
        Some(i) => {
            let (qq, mut c) = table.connections.remove(i);
            proof {
                lemma_lookup_remove(old(table).connections@, i as int, q);
            }
            let pr = c.on_packet(&ip, &t, data);
            table.connections.push((qq, c));
            proof {
                let s0 = old(table).connections@;
                let s = s0.remove(i as int);
                lemma_remove_keeps_unique(s0, i as int);
                assert(table.connections@ == s.push((q, c)));
                s0.remove_ensures(i as int);
                assert forall|a: int, b: int|
                    0 <= a < b < table.connections@.len() implies table.connections@[a].0
                    != table.connections@[b].0 by {
                    if b < s.len() {
                    } else {
                        assert(table.connections@[b] == (q, c));
                        assert(s[a].0 != q);
                    }
                }
                assert forall|q2: Quad| #[trigger] table.flow(q2) == (if q2 == q {
                    Some(c)
                } else {
                    old(table).flow(q2)
                }) by {
                    lemma_lookup_push(s, q2, q, c);
                    lemma_lookup_remove(s0, i as int, q2);
                    if q2 == q {
                        lemma_lookup_absent(s, q);
                    }
                }
            }
            Ok(pr)
        },
        None => {
            match Connection::accept(&ip, &t, data) {
                Some((c, seg)) => {
                    table.connections.push((q, c));
                    proof {
                        let s0 = old(table).connections@;
                        lemma_lookup_none_means_absent(s0, q);
                        assert forall|a: int, b: int|
                            0 <= a < b < table.connections@.len() implies table.connections@[a].0
                            != table.connections@[b].0 by {
                            if b == s0.len() {
                                assert(table.connections@[b] == (q, c));
                            }
                        }
                        assert forall|q2: Quad| #[trigger] table.flow(q2) == (if q2 == q {
                            Some(c)
                        } else {
                            old(table).flow(q2)
                        }) by {
                            lemma_lookup_push(s0, q2, q, c);
                        }
                    }
                    let mut out: Vec<Vec<u8>> = Vec::new();
                    out.push(seg);
                    Ok(PacketResult { out, unsupported: false })
                },
                None => Ok(PacketResult { out: Vec::new(), unsupported: false }),
            }
        },
    }
}

} // verus!
