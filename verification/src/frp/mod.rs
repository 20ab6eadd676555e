//! The reactive dataflow network.
//!
//! A network is a store of nodes. A node either produces events, which it
//! sends to the nodes that listen to it, or it is a behavior, whose current
//! value can be read at any time. Events are pushed: when a node sends an
//! event, every node that is reached reacts before the call returns, in the
//! order in which the listeners were registered. Behaviors are pulled.
//!
//! * [`message`], [`node`] and [`infer`] hold the data: messages, values,
//!   handles, shapes and the rules for the kinds of message.
//! * [`model`] says what a propagation is, as a function from the state of
//!   a network to its next state and the notifications that were sent.
//! * [`network`] is the store, with the propagation that is proved to do
//!   what the model says.
//! * [`wiring`], [`combinators`], [`traits`] and [`dynamic`] build networks.
//! * [`laws`] and [`typing`] state what holds of every network.
//! * [`debug`], [`dot`] and [`names`] describe a network as a graph.

pub mod message;
pub mod node;
pub mod infer;
pub mod model;
pub mod network;
pub mod wiring;
pub mod typing;
pub mod combinators;
pub mod traits;
pub mod dynamic;
pub mod laws;
pub mod debug;
pub mod dot;
pub mod names;
