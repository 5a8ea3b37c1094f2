//! The streaming blob cache of a registry that proxies others.
//!
//! A proxied manifest is served as soon as it has been fetched, and its layers are downloaded on
//! demand. Each request for a blob streams bytes to the client while the download into the local
//! cache is still in progress, and concurrent requests for the same digest attach to a single
//! upstream download.
//!
//! The library decides and the program around it acts: it opens connections, writes files, asks
//! the database, and hands back what came of it.
//!
//! - [`segment`], [`state`], [`stream`] and [`fetch`] fetch a blob in segments over several
//!   connections, each redialled when it stalls; [`transfer`] states what they bring about
//!   together.
//! - [`download`] and [`digest`] take a blob from the first response to its row in the store.
//! - [`progress`], [`inflight`] and [`tail`] let readers share and follow a download.
//! - [`proxy`], [`image`] and [`layers`] choose the manifest that is served and what is downloaded
//!   for it.
//! - [`chunk`], [`error`] and [`text`] hold what the others share.

pub mod chunk;
pub mod digest;
pub mod download;
pub mod error;
pub mod fetch;
pub mod image;
pub mod inflight;
pub mod layers;
pub mod progress;
pub mod proxy;
pub mod segment;
pub mod state;
pub mod stream;
pub mod tail;
pub mod text;
pub mod transfer;
