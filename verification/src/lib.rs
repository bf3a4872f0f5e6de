//! Core logic of a desktop launcher that boots a locally hosted web
//! application server: port allocation, search-path resolution, the
//! update/build pipeline's decisions, the server supervisor's handle slot,
//! the health poller's retry budget, and the lifecycle state machine that
//! sequences them. All I/O (subprocesses, sockets, the display surface)
//! lives outside this crate; these modules take the observed outcomes as
//! plain values and decide what happens next.

pub mod bytes;
pub mod controller;
pub mod path_resolver;
pub mod pipeline;
pub mod poller;
pub mod ports;
pub mod supervisor;

use vstd::prelude::*;

verus! {

} // verus!
