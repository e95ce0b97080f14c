//! Git-backed wiki engine: the verified core.
use vstd::prelude::*;

pub mod export;
pub mod text;
pub mod slug;
pub mod links;
pub mod frontmatter;
pub mod graph;
pub mod lint;
pub mod config;
pub mod spaces;
pub mod suggest;
pub mod analysis;
pub mod ingest;
pub mod acp;
pub mod index_state;
pub mod index_schema;
pub mod type_registry;
pub mod contradiction;
pub mod structural_lint;
pub mod search;
pub mod ops;
pub mod instructions;
pub mod watch;
pub mod graph_llms;
pub mod graph_merge;
pub mod schema_template;
