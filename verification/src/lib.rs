//! Serial Tether: one daemon owns a serial port, many clients share it.
//!
//! The daemon keeps every byte received in a ring buffer, gives each attached
//! session its own cursors into it, and arbitrates writers with a lock per
//! device. The modules here hold the data structures, the wire types, the
//! request handlers as state transitions, and the client's decisions; sockets,
//! serial ports and terminals stay outside.

pub mod banner;
pub mod bridge;
pub mod buffer;
pub mod client;
pub mod client_promises;
pub mod codec;
pub mod command;
pub mod conn;
pub mod control;
pub mod device_promises;
pub mod encoding;
pub mod error;
pub mod exec;
pub mod expect;
pub mod handlers;
pub mod ids;
pub mod lock;
pub mod message;
pub mod pattern;
pub mod promises;
pub mod render;
pub mod scan;
pub mod serial;
pub mod session;
pub mod shell;
pub mod startup;
pub mod state;
pub mod text;
