//! Markdown segmentation into titled, summarised sections, and the
//! transactional record store that keeps them.

pub mod bridge;
pub mod codec;
pub mod markdown;
pub mod parser;
pub mod retriever;
pub mod storage;
pub mod summary;
pub mod text;

pub use bridge::ContextfyKit;
pub use parser::{parse_markdown, slice_by_headers, ParsedDoc, SlicedDoc, SlicedSection};
pub use retriever::{Brief, Details, Retriever};
pub use storage::{KnowledgeRecord, KnowledgeStore};
pub use summary::extract_summary;
