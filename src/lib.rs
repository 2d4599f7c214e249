//! A small static file server: request routing, path confinement and
//! response framing, verified; sockets and the filesystem stay outside.

pub mod laws;
pub mod listing;
pub mod path;
pub mod request;
pub mod response;
pub mod serve;
