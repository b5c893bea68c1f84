//! Core data plane of a local man-in-the-middle HTTP/HTTPS filtering proxy:
//! authority handling, the leaf-certificate cache, exclusion matching, the
//! blocking engine bridge, per-request dispatch decisions, and HTML
//! rewriting. The sockets, timers and channels around these pieces belong to
//! the embedding program; everything here works on plain values.
#![verifier::loop_isolation(false)]

pub mod acceptor;
pub mod authority;
pub mod blocker;
pub mod ca;
pub mod cert;
pub mod configuration;
pub mod events;
pub mod exclusions;
pub mod responses;
pub mod rewrite;
pub mod serve;
pub mod session;
pub mod statistics;
pub mod text;
