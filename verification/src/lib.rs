//! Control plane of an encrypted IPv6 overlay mesh network.
//!
//! The crate holds the routing protocol engine: a distance-vector protocol in
//! the Babel family. Its pieces are
//! - [`seqno`]: 16-bit sequence numbers with circular comparison,
//! - [`metric`]: additive route metrics with a distinguished infinite value,
//! - [`subnet`]: overlay addresses and the prefixes identifying destinations,
//! - [`codec`]: the type-length-value wire format of control messages,
//! - [`packet`]: outer packets and the control-message constructors,
//! - [`peer`]: the per-link peer state machine and the peer set,
//! - [`router`]: the route table with Babel-style selection and feasibility,
//! - [`message`]: reliable delivery of application messages,
//! - [`api`]: plain snapshot and query types handed to a reporting layer.
//!
//! Transport links, timers and the HTTP surface are outside collaborators:
//! they hand the engine plain values (received packets, link events, clock
//! readings) and carry its decisions (packets to send, state snapshots) out.

pub mod api;
pub mod codec;
pub mod message;
pub mod metric;
pub mod packet;
pub mod peer;
pub mod router;
pub mod seqno;
pub mod subnet;
