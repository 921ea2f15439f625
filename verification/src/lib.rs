//! Consensus deliberation core: the argumentation solver, committed-entry
//! coordination, local drafts and the views of the deliberation, the
//! assistant's conversation and tool calls, the chat gateway's dispatch
//! kernel, and the parsing and rendering around them.

pub mod app;
pub mod app_tools;
pub mod auth;
pub mod backoff;
pub mod connection;
pub mod console;
pub mod conversation;
pub mod coordinator;
pub mod drafts;
pub mod entry_buffer;
pub mod entries_page;
pub mod fixtures;
pub mod gateway;
pub mod json;
pub mod llm_turn;
pub mod materialized;
pub mod order;
pub mod preview;
pub mod prompt;
pub mod render;
pub mod response;
pub mod runtime;
pub mod seeding;
pub mod session;
pub mod shell;
pub mod solver;
pub mod sse;
pub mod stream_json;
pub mod strings;
pub mod system_prompt;
pub mod tool_arguments;
pub mod tool_schema;
pub mod trace_text;
pub mod types;
pub mod whisper;
pub mod worker_query;
