//! Core of the account switcher: what it decides, without the sockets, clocks and files that it
//! decides about.
//!
//! - [`client_cdp`] drives the desktop client over its debugging port, on top of [`ws`], [`http`]
//!   and [`header`];
//! - [`growth`] runs the growth programme: invitation codes, tasks and their credit;
//! - [`autotask`] does the tasks that come down to sending messages;
//! - [`rotate`] decides when to change the account, and to which;
//! - [`laws`] says what all of this is for;
//! - [`json`] and [`text`] are what all of them read and write.
//!
//! What has to wait for the outside is written as a machine: it says what it needs next, and is told
//! what came of it.
pub mod autotask;
pub mod client_cdp;
pub mod growth;
pub mod header;
pub mod http;
pub mod json;
pub mod laws;
pub mod rotate;
pub mod text;
pub mod ws;
