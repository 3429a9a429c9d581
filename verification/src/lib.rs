//! An API-translation gateway core: rewrites OpenAI-style chat-completion
//! requests into the question/context shape of a backend service, rewrites the
//! backend's reply into a chat-completion response, and emulates streaming by
//! splitting a complete reply into ordered protocol events.

use vstd::prelude::*;

pub mod chat;
pub mod cli;
pub mod cli_json;
pub mod config;
pub mod helpers;
pub mod history;
pub mod json;
pub mod man;
pub mod openai;
pub mod provider;
pub mod release;
pub mod shell;
pub mod strutil;
