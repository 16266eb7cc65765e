// The core of a small HTTP/1.1 server: who is admitted, how a request is framed and
// parsed, where it is routed, which file a path may name, and what is sent back. The
// handler of a connection (`connection`) decides; reading, waiting and sending are left
// to the program around it.

pub mod address;
pub mod admission;
pub mod config;
pub mod connection;
pub mod framer;
pub mod handlers;
pub mod request;
pub mod response;
pub mod router;
pub mod text;
pub mod util;
