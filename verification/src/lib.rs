//! A terminal multiplexer's session, window and pane model, its layout
//! trees, its command language and the pure parts of its client interface.
pub mod text;
pub mod tables;
pub mod layout;
pub mod state;
pub mod laws;
pub mod proto;
pub mod command;
pub mod effects;
pub mod compat;
pub mod dispatch;
pub mod display;
pub mod terminal;
pub mod ui;
pub mod bars;
pub mod copy;
pub mod client;
pub mod screen;
pub mod frame;
pub mod client_laws;
pub mod invariants;
pub mod reach;
pub mod operation_laws;
