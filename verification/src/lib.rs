//! Archival of epoch-numbered database checkpoint directories.
//!
//! A node writes one checkpoint directory per epoch to local disk. This
//! library decides which epochs a remote object store is missing, in which
//! order the local directories are uploaded, and when a local directory may be
//! deleted. It performs no I/O: callers list directories, read markers and
//! carry out the steps that the library plans.
//!
//! - [`handler`]: the handler and its settings.
//! - [`epoch_name`], [`epoch_index`]: from a listing of directories to the
//!   index of checkpoints by epoch.
//! - [`gap`]: the epochs that the remote store lacks.
//! - [`upload`]: the steps of an upload cycle.
//! - [`gc`]: the local checkpoints that may be deleted.
//! - [`progress`]: carrying out a plan until a step fails.
//! - [`scheduler`]: sync ticks, garbage collection ticks, cancellation.
//! - [`model`], [`sync_cycle`], [`gc_pass`]: a model of the two stores, and
//!   what is proved of the stores that cycles and passes leave behind.
//! - [`store_path`], [`markers`], [`ordered`]: locations, marker names,
//!   ascending traversal.

pub mod epoch_index;
pub mod epoch_name;
pub mod gap;
pub mod gc;
pub mod gc_pass;
pub mod handler;
pub mod markers;
pub mod model;
pub mod ordered;
pub mod progress;
pub mod scheduler;
pub mod store_path;
pub mod sync_cycle;
pub mod upload;

pub use handler::{DBCheckpointHandler, DBCheckpointMetrics};
pub use markers::{SUCCESS_MARKER, TEST_MARKER, UPLOAD_COMPLETED_MARKER};
