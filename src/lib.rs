//! Core of an asynchronous ZooKeeper client: the wire codec, path and chroot
//! translation, the session state machine, the watch registry and the
//! request pipeline.

pub mod chroot;
pub mod codec;
pub mod connect;
pub mod engine;
pub mod error;
pub mod lock;
pub mod pipeline;
pub mod request;
pub mod response;
pub mod session;
pub mod watch;
pub mod watcher;
