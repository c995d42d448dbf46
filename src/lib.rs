//! Classification of pairwise long-read alignments into internal matches,
//! containments and dovetails, and assembly of the surviving overlaps into a
//! GFA1 graph.

pub mod record;
pub mod classify;
pub mod graph;
pub mod gfa_text;
pub mod filter;
pub mod policy;
pub mod indexing;
pub mod renaming;
pub mod modifier;
pub mod pipeline;
pub mod codec;
