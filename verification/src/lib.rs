//! Builds of test chains on a darksidewalletd server.
//!
//! A darksidewalletd server plays a Zcash chain that its user puts together block by block:
//! blocks, transactions and the states of the note commitment trees are staged, and then
//! applied. This library holds what such a build is made of:
//!
//! - [`messages`] and [`connector`]: the calls of the server, and how they are packed;
//! - [`merkle`], [`transaction`] and [`update`]: the tree state that a transaction leaves
//!   behind;
//! - [`tree_state`] and [`json`]: tree states that are kept as JSON documents;
//! - [`dataset`] and [`encoding`]: lists of blocks and transactions, in hexadecimal;
//! - [`flow`] and [`chain`]: builds as scripts of steps, and the machine that carries them
//!   out, one request to the outside and one reply at a time;
//! - [`handler`] and [`scenario`]: the server process, and the wallets that use it;
//! - [`laws`] and [`outcomes`]: what holds of whole builds, and what each asks for and comes
//!   to;
//! - [`meaning`]: what the values and the single operations mean.
//!
//! Nothing here reaches the outside. A caller performs each request that a build makes, and
//! hands back the reply.

pub mod chain;
pub mod connector;
pub mod dataset;
pub mod encoding;
pub mod flow;
pub mod handler;
pub mod json;
pub mod laws;
pub mod meaning;
pub mod merkle;
pub mod messages;
pub mod outcomes;
pub mod scenario;
pub mod transaction;
pub mod tree_state;
pub mod update;
