//! Control plane of a flow-based-programming network.
//!
//! The library is the decision core of a graph control agent: it receives
//! administrative commands (add a node, remove a node, wire two ports,
//! inject a literal startup value, expose a subgraph boundary) and computes
//! the exact sequence of Execution Engine calls and outbound emissions that
//! apply them, while maintaining the table of known subgraphs.
//!
//! The Execution Engine itself, the message transport and all channel I/O
//! live outside this crate: a caller interprets the scripts produced here.

pub mod text;
pub mod table;
pub mod subgraph;
pub mod ops;
pub mod policy;
pub mod engine;
pub mod agent;
pub mod loader;
