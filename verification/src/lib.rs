//! # Vynkor SDK, protocol side
//!
//! A Vynkor plugin is a process of its own that talks to the Vynkor kernel
//! over a Unix domain socket or a WebSocket: 44-byte headers, messages in
//! envelopes, optional tags and fragments. This crate holds what a plugin
//! decides and computes on such a connection. It does no input or output and
//! reads no clock: frames, messages and times come in as values, frames and
//! messages to send go out as values.
//!
//! - [`client`] is the state of a connection: it seals and fragments what is
//!   sent, checks and reassembles what arrives, and takes part in the
//!   registration. [`requests`] holds what can be asked of the kernel and how
//!   answers are waited for.
//! - [`plugin`] is the life of a plugin from its registration to its end, as
//!   a state machine, and the choice of its credentials.
//! - [`confirmation_gate`] splits a risky operation in a request that anyone
//!   may make and a confirmation that only approved callers may give.
//! - [`framing`], [`frame_mac`], [`fragmentation`] and [`reassembly`] are the
//!   wire format; [`proto`] are the messages.
//! - [`client_laws`], [`plugin_laws`] and [`confirmation_laws`] hold what
//!   follows for whole connections, lives and gates. [`connection_laws`],
//!   [`request_laws`], [`approval_laws`], [`reassembly_laws`] and
//!   [`wire_laws`] say of each call, in plain numbers and texts, what its
//!   result must be.
//!
//! Times are [`span::Span`]s since an origin that the caller keeps; the time
//! of day is a number of milliseconds.

pub mod approval_laws;
pub mod client;
pub mod client_laws;
pub mod concurrent;
pub mod confirmation_gate;
pub mod confirmation_laws;
pub mod connection_laws;
pub mod error;
pub mod fragmentation;
pub mod frame_mac;
pub mod framing;
pub mod ids;
pub mod json;
pub mod plugin;
pub mod plugin_laws;
pub mod proto;
pub mod reassembly;
pub mod reassembly_laws;
pub mod request_laws;
pub mod requests;
pub mod span;
pub mod text;
pub mod wire_laws;

pub use client::VynkorClient;
pub use concurrent::response_envelope;
pub use confirmation_gate::{
    send_confirmation, send_confirmation_request, ConfirmationGate, PendingAction,
};
pub use error::VynkorError;
