//! Session logic of a chat assistant: transcripts, text budgets, session
//! metadata and storage layout, with their contracts proved by Verus.
use vstd::prelude::*;

pub mod text;
pub mod tokenizer;
pub mod text_split;
pub mod json;
pub mod json_text;
pub mod message;
pub mod nodes;
pub mod paths;
pub mod tool_result_guard;
pub mod types;
pub mod store;
pub mod tool_exec;
pub mod failure;
pub mod entry;
pub mod prompt;
pub mod rate_limit;
pub mod transcript_ops;
pub mod transcript;
pub mod inbox;
pub mod upsert;
pub mod routes;

verus! {

} // verus!
