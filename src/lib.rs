//! Live-reload notification core of a personal wiki: a broadcaster that fans
//! change signals out to every open browser session, the decisions of the
//! per-connection forwarder and of the directory watcher, and the small page,
//! path and markdown helpers around them.
pub mod channel;
pub mod broadcaster;
pub mod history;
pub mod dispatch;
pub mod session;
pub mod text;
pub mod view;
pub mod pages;
pub mod search;
