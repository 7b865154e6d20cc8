//! A minimal userspace network protocol stack: a device abstraction layer,
//! a protocol dispatch table, and an IP/ICMP processing pipeline that parses,
//! validates, routes, and emits datagrams over pluggable link-layer devices.

pub mod context;
pub mod device;
pub mod error;
pub mod iface;
pub mod ip;
pub mod loopback;
pub mod net;
pub mod protocol;
pub mod text;
pub mod util;
