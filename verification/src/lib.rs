//! Capture decoding and flow-oriented protocol identification.
//!
//! The crate turns a stream of capture blocks (classic pcap or the
//! block-oriented format) into a uniform sequence of timestamped packets,
//! groups packets into bidirectional flows, probes the application-layer
//! protocol on the first payload bytes of each flow, and binds a long-lived
//! parser to the flow. A small filtering layer decides which packets to keep
//! when rewriting a capture.

pub mod duration;
pub mod error;
pub mod packet;
pub mod data_engine;
pub mod flow;
pub mod rusticata;
pub mod key_parser;
pub mod dispatch_filter;
