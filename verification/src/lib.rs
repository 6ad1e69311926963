//! Which install of the Unity debug adapter a debug session uses, and how the
//! session is started with it.
//!
//! The adapter is not shipped with the host. Before a session can start, an
//! install has to be found in the working directory or fetched from the
//! release registry. [`resolver`] decides which install to use: it ranks the
//! candidates ([`ranker`]), the remote one ([`release`]) and the local ones
//! ([`inventory`]), tries them in rank order ([`provisioner`]) and keeps the
//! first that can be used. [`runs`] states what holds of whole resolutions.
//! [`config`] reads and checks the settings of a session. [`errors`] holds
//! what can go wrong.
//!
//! The library asks nothing of the outside world itself. A resolution is a
//! dialogue: the library says what it needs to know, the host finds out and
//! says what came of it.

pub mod candidate;
pub mod config;
pub mod errors;
pub mod inventory;
pub mod ipv4;
pub mod json;
pub mod names;
pub mod provisioner;
pub mod ranker;
pub mod release;
pub mod resolver;
pub mod runs;
pub mod text;
