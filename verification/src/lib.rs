//! A bounds-checked two-dimensional matrix over a numeric element type.
//!
//! The crate offers a minimal, correctness-first grid primitive: a
//! [`matrix::Matrix`] with shape queries, coordinate read/write, bulk fill
//! and identity construction, together with a [`matrix::MatrixBuilder`]
//! that validates a staged shape before any matrix becomes observable.
//!
//! Elements are stored in one flat buffer in row-major order: the entry at
//! row `a`, column `b` lives at flat offset `a * cols + b`. That single
//! addressing convention is shared by every read and write in the crate and
//! is pinned down by the contracts in [`matrix`].

pub mod matrix;
pub mod numeric;
