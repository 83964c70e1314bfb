//! Batch interlacing of raster images: the command-line grammar, candidate
//! selection, output path mapping, the per-file transform decision, the
//! overwrite confirmation answers and the per-file job state machine.

pub mod text;
pub mod cli;
pub mod paths;
pub mod scan;
pub mod decision;
pub mod gate;
pub mod job;
pub mod dispatch;
