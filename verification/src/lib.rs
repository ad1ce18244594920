//! A verified loader for plain-text polygon-mesh files in the line-oriented
//! `v`/`vt`/`vn`/`f` format. The loader turns the raw text into a pair of
//! GPU-ready buffers: an interleaved vertex buffer (position and texture
//! coordinate, five scalars per vertex) and a triangle index buffer.
//!
//! Scalars are carried as their numeric source tokens (byte strings
//! validated against the float-literal grammar), so that the whole pipeline
//! — line classification, attribute pools, face tokenization, fan
//! triangulation, index normalization and vertex deduplication — is
//! specified and verified exactly; a caller converts each token to a
//! machine float only when handing the buffers to a GPU.

pub mod attr;
pub mod dedup;
pub mod error;
pub mod face;
pub mod lex;
pub mod numbers;
pub mod parse;

pub use crate::attr::parse_obj_line;
pub use crate::dedup::MeshBuffers;
pub use crate::error::ObjError;
pub use crate::face::FaceVertexRef;
pub use crate::parse::file2obj;
