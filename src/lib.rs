//! Turns a complex read-pair geometry into a simple fixed-width one: a
//! geometry description is compiled into one anchored matcher per read, each
//! read pair is matched and its captured pieces are written out with
//! variable-length pieces padded to a fixed width, and the equivalent
//! fixed-width geometry is derived.
pub mod compile;
pub mod geom;
pub mod laws;
pub mod matcher;
pub mod parse;
pub mod simplify;
pub mod stats;
pub mod text;
pub mod xform;

pub use compile::{CompileError, FragmentGeomDescExt, FragmentRegexDesc};
pub use geom::{FragmentGeomDesc, GeomLen, GeomPiece};
pub use parse::{var_len_bc_padding, SeqPair};
pub use stats::XformStats;
pub use xform::xform_read_pair;
