//! A local HLS side-car library: it resolves a content identifier into a
//! playable playlist by walking a chain of embed pages, decoding the
//! obfuscated stream URL the last page carries, and rewriting the fetched
//! manifest so that every URI routes back through the side-car's own
//! endpoints. The registry of reversible decoders, the marker transform,
//! the host substitution, the manifest rewriter, and the per-step scrape
//! logic live here with their contracts; the thin HTTP binary around them
//! only moves bytes.

pub mod decoder;
pub mod extract;
pub mod front;
pub mod lit;
pub mod rewrite;
pub mod text;
