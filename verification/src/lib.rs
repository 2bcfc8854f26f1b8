//! A TCP/IP network stack.

pub mod control;
pub mod discovery;
pub mod driver;
pub mod egress;
pub mod endian;
pub mod hostname;
pub mod iface;
pub mod ingress;
pub mod link;
pub mod options;
pub mod pending;
pub mod poll;
pub mod reply;
pub mod stack;
pub mod storage;
pub mod time;
pub mod wire;
