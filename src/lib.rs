//! Resolution of relative paths to object handles on a remote, enumerable
//! object store (an MTP device's tree of folders and files).
//!
//! Every traversal step is a fresh remote round trip: the library keeps no
//! cache of the tree. The remote calls themselves are made by the caller; the
//! library decides which call comes next and what its answer means.
//!
//! - [`object`]: object handles and their types.
//! - [`children`]: the lazy sequence of an object's children, and its folders.
//! - [`resolve`]: the resolver, and the model of the store it is proved against.
//! - [`laws`]: properties of resolution, proved over that model.
//! - [`wide`]: identifiers and names as UTF-16 code units.
pub mod children;
pub mod laws;
pub mod object;
pub mod resolve;
pub mod wide;
