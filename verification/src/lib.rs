//! Verified core of a set of small web servers, chat-service clients and
//! model runners: an in-memory book catalog with its HTML replies and laws,
//! the bookkeeping of token-by-token text generation, excerpts and prompts
//! for retrieval, the choices around embedding runs, request and reply
//! records of a chat-completion service, employee and practice-session rows
//! and replies, and small demo pages.
pub mod book_laws;
pub mod books;
pub mod generation;
pub mod llm;
pub mod models;
pub mod pages;
pub mod records;
pub mod retrieval;
pub mod text;
