//! A minimal userspace TCP/IPv4 endpoint: per-flow connection state machines
//! driven by raw IPv4 datagrams, with the sequence-number window arithmetic,
//! state transitions and segment synthesis verified.

pub mod demux;
pub mod seqnum;
pub mod tcp;
pub mod wire;
