//! Composable adapters over push-based sinks with backpressure.
//!
//! A sink takes items one at a time, may turn an item away while it is busy,
//! and has to be flushed and closed explicitly ([`sink`]).  The adapters of
//! this crate wrap a sink and keep that protocol intact: nothing is dropped,
//! duplicated or reordered on the way to the wrapped sink, and an error of the
//! wrapped sink comes up unchanged.
//!
//! - [`with`] converts every item by an asynchronous step,
//! - [`with_flat_map`] expands every item into a stream of items,
//! - [`buffer`] queues items for a sink that is not ready,
//! - [`fanout`] hands every item to two sinks,
//! - [`map_err`] and [`err_into`] change the error type,
//! - [`either_sink`] makes one type of two kinds of sink,
//! - [`send`], [`send_all`], [`flush`] and [`close`] are the one-shot
//!   operations that drive a sink,
//! - [`SinkExt`] and [`StreamExt`] offer all of these as methods,
//! - [`bridge`] decides for code that joins these sinks to sinks which are asked
//!   for readiness before every item.
//!
//! Every operation is a poll: it does what it can without waiting and says
//! whether it is done.  Sinks, streams, futures and step functions are traits
//! ([`sink::Sink`], [`stream::Stream`], [`future::Future`], [`step::Step`]) whose
//! contracts the adapters are proved against; [`recorder::Recorder`],
//! [`stream::Iter`], [`future::Ready`] and [`step::FnStep`] are the plain
//! implementations that come with the crate.

pub mod bridge;
pub mod buffer;
pub mod close;
pub mod either_sink;
pub mod err_into;
pub mod ext;
pub mod fanout;
pub mod flush;
pub mod future;
pub mod map_err;
pub mod recorder;
pub mod send;
pub mod send_all;
pub mod sink;
pub mod step;
pub mod stream;
pub mod task;
pub mod with;
pub mod with_flat_map;

pub use crate::ext::{SinkExt, StreamExt};
