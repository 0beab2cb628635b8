//! An in-process data layer behind RESTful verbs, and a presence tracker.
//!
//! - `container`: the keyed store that backs every resource collection.
//! - `outcome`: the kinds of result and the reply of an operation.
//! - `paging`: offset and limit over a snapshot of a store.
//! - `ids`: fresh identifiers for items that arrive without one.
//! - `todos`, `rest`, `node`: the three resource collections, each with the
//!   same conflict policy per verb: PUT overwrites, POST conflicts on a taken
//!   id, PATCH merges into an item that must exist, DELETE removes.
//! - `fingerprint`: a session key computed from request metadata.
//! - `heartbeat`: the sessions that are online, their counter and the sweep.
//!
//! The store and the tracker are plain values: a caller that shares one among
//! threads puts it behind a reader/writer lock and holds the lock for the one
//! call.
pub mod container;
pub mod fingerprint;
pub mod heartbeat;
pub mod ids;
pub mod node;
pub mod outcome;
pub mod paging;
pub mod rest;
pub mod todos;
