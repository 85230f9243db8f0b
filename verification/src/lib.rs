//! Verified core of an exam-content service: the hierarchical
//! exam -> description -> section -> question -> option data model, the
//! relational semantics of its create/read/edit/delete operations, the
//! regrouping of joined rows into nested responses, and the text utilities
//! used to build prompts and to clean up generated output.

pub mod delete;
pub mod edit;
pub mod errors;
pub mod exam;
pub mod insert;
pub mod kv;
pub mod laws;
pub mod llm;
pub mod models;
pub mod parse;
pub mod prompts;
pub mod quran;
pub mod read;
pub mod roundtrip;
pub mod services;
pub mod schema;
pub mod store;
pub mod text;
