//! The protocol engine of a DLNA/UPnP media server: the SSDP presence
//! beacon, the HTTP request router, the ContentDirectory `Browse` action,
//! the transcode cache and the byte-range streamer.
//!
//! Everything here is pure: sockets, timers, the media tree and the XML
//! layer live with the embedding program, which hands this crate plain
//! values and performs the actions it gets back.
//!
//! - [`discovery`]: the announcements of the device and the bursts they are
//!   sent in.
//! - [`request`], [`server`], [`reply`]: from a request to the reply, or to
//!   the work that leads to one.
//! - [`soap`], [`browse`], [`media`], [`order`]: the `Browse` action, from
//!   the children of an object to containers and items in natural order.
//! - [`cache`], [`job`], [`stream`]: one transcode for each output, read by
//!   many while it grows, in whole or by byte range.
//! - [`description`], [`http`], [`percent`], [`text`]: the documents, the
//!   notions and the tools that the others share.

pub mod browse;
pub mod cache;
pub mod description;
pub mod discovery;
pub mod http;
pub mod job;
pub mod media;
pub mod order;
pub mod percent;
pub mod reply;
pub mod request;
pub mod server;
pub mod soap;
pub mod stream;
pub mod text;
