//! A local control-plane service core: the process bridge that merges a
//! worker's output channels, the transactional replace and the listing order
//! of a workflow's steps, the blob store's naming and asset lookup, and the
//! mapping of operation outcomes to responses.
pub mod blob;
pub mod bridge;
pub mod respond;
pub mod steps;
