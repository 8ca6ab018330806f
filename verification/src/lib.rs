//! Port-scan detection for firewall logs.
//!
//! Log lines arrive as text. A parser ([`parser`]) turns each line that
//! reports a blocked connection attempt into an event. The detector
//! ([`detector`]) records the event under its source address, evaluates three
//! sliding-window rules and hands back the alerts of the rules that fire. The
//! alerter ([`alerter`]) turns an alert into the datagram for the SIEM
//! collector and the mail for the relay.
//!
//! Everything here is verified with Verus. What the detector does is fixed
//! by a mathematical model of its state; [`invariants`] holds what is proved
//! of that model. Calls into `dashmap`, `regex`, `chrono` and the clocks of
//! the standard library stand behind contracts that are taken on trust; each
//! such item says in its documentation what it claims.
//!
//! Nothing in this crate reads a socket, a file or the environment.

pub mod alerter;
pub mod clock;
pub mod config;
pub mod detector;
pub mod framing;
pub mod ingest;
pub mod invariants;
pub mod ip;
pub mod parser;
pub mod ports;
pub mod round_trip;
pub mod store;
pub mod text;
