//! A functional reactive programming engine whose propagation of events is
//! verified, and the data structures of the editor that is built on it.
//!
//! * [`frp`] is the engine: a network of nodes that send events to each
//!   other and hold behaviors, the combinators that wire nodes into it, and
//!   the laws that hold of them.
//! * [`scene`] keeps the state of the mouse and feeds it into a network.
//! * [`graph_editor`], [`pool`] and [`alphabet`] are collections of the
//!   editor.
//! * [`text`], [`word`] and [`movement`] move carets and selections through
//!   a text.
//! * [`collapse`], [`alias_analysis`], [`text_order`], [`context`] and
//!   [`module_location`] work on the code that the editor shows.
//! * [`searcher`] keeps the state of the search for what to add to it, and
//!   [`ide`] chooses the project to open.
//! * [`option`] has helpers for `Option`.

pub mod frp;
pub mod scene;
pub mod graph_editor;
pub mod pool;
pub mod alphabet;
pub mod text;
pub mod word;
pub mod movement;
pub mod collapse;
pub mod alias_analysis;
pub mod searcher;
pub mod ide;
pub mod text_order;
pub mod context;
pub mod module_location;
pub mod option;
