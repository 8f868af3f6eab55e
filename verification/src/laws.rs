//! What the library is for, said of inputs and results.
//!
//! The modules beside this one define what each operation comes to. The laws here do not lean on
//! those definitions: they say in plain terms, over all inputs, what comes out for what goes in and
//! how several results hang together.
pub mod autotask;
pub mod client_cdp;
pub mod growth;
pub mod header;
pub mod http;
pub mod json;
pub mod newbie;
pub mod rotate;
pub mod text;
pub mod ws;
