//! Content aggregation for a static blog: post discovery, metadata and date
//! handling, Markdown-to-HTML assembly, publish filtering, ordering and the
//! dispatch of page rendering jobs.

pub mod collect;
pub mod date;
pub mod discovery;
pub mod error;
pub mod html;
pub mod laws;
pub mod ordering;
pub mod post;
pub mod render;
pub mod seq_facts;
pub mod text;
