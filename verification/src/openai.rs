//! The wire schema: data definitions for the chat-completion API surface.
//!
//! Requests and responses are plain data; nothing here is interpreted beyond
//! what the transformers in [`crate::provider`] state in their contracts.
//! Sampling parameters and tool definitions are carried through untouched,
//! and unrecognized request fields ride along in the open `extra` map.

use vstd::prelude::*;

verus! {

/// Chat completion request.
///
/// The role and content of the messages and the `stream` flag are the only
/// fields the gateway interprets; everything else is structural pass-through.
#[derive(Debug, Clone)]
pub struct ChatCompletionRequest {
    /// Model ID
    pub model: String,
    /// List of messages
    pub messages: Vec<Message>,
    /// Number of completions
    pub n: Option<u32>,
    /// Stream
    pub stream: Option<bool>,
    /// Stop
    pub stop: Option<Vec<String>>,
    /// Maximum tokens
    pub max_tokens: Option<u32>,
    /// User
    pub user: Option<String>,
    /// Tools
    pub tools: Option<Vec<Tool>>,
    /// Tool choice
    pub tool_choice: Option<serde_json::Value>,
    /// Additional fields that might be present, preserved but not interpreted
    pub extra: std::collections::HashMap<String, serde_json::Value>,
}

/// Chat message structure
#[derive(Debug, Clone)]
pub struct Message {
    /// Role
    pub role: String,
    /// Content
    pub content: String,
    /// Name
    pub name: Option<String>,
    /// Tool calls
    pub tool_calls: Option<Vec<ToolCall>>,
}

/// Tool call structure for function calling
#[derive(Debug, Clone)]
pub struct ToolCall {
    /// ID
    pub id: String,
    /// Call type
    pub call_type: String,
    /// Function
    pub function: FunctionCall,
}

/// Function call details
#[derive(Debug, Clone)]
pub struct FunctionCall {
    /// Name
    pub name: String,
    /// Arguments
    pub arguments: String,
}

/// Tool definition structure
#[derive(Debug, Clone)]
pub struct Tool {
    /// Tool type
    pub tool_type: String,
    /// Function
    pub function: FunctionDefinition,
}

/// Function definition for tools
#[derive(Debug, Clone)]
pub struct FunctionDefinition {
    /// Name
    pub name: String,
    /// Description
    pub description: Option<String>,
    /// Parameters
    pub parameters: serde_json::Value,
}

/// Chat completion response structure
#[derive(Debug)]
pub struct ChatCompletionResponse {
    /// ID
    pub id: String,
    /// Object
    pub object: String,
    /// Created
    pub created: i64,
    /// Model
    pub model: String,
    /// Choices
    pub choices: Vec<Choice>,
    /// Usage
    pub usage: Usage,
}

/// Choice structure
#[derive(Debug)]
pub struct Choice {
    /// Index
    pub index: u32,
    /// Message
    pub message: Message,
    /// Finish reason
    pub finish_reason: Option<String>,
}

/// Usage structure
#[derive(Debug)]
pub struct Usage {
    /// Prompt tokens
    pub prompt_tokens: u32,
    /// Completion tokens
    pub completion_tokens: u32,
    /// Total tokens
    pub total_tokens: u32,
}

/// Streaming response chunk
#[derive(Debug)]
pub struct ChatCompletionChunk {
    /// ID
    pub id: String,
    /// Object
    pub object: String,
    /// Created
    pub created: i64,
    /// Model
    pub model: String,
    /// Choices
    pub choices: Vec<ChunkChoice>,
}

/// Chunk choice structure
#[derive(Debug)]
pub struct ChunkChoice {
    /// Index
    pub index: u32,
    /// Delta
    pub delta: Delta,
    /// Finish reason
    pub finish_reason: Option<String>,
}

/// Delta structure: the partial fields present in one streaming event
#[derive(Debug)]
pub struct Delta {
    /// Role
    pub role: Option<String>,
    /// Content
    pub content: Option<String>,
    /// Tool calls
    pub tool_calls: Option<Vec<ToolCall>>,
}

/// Models list response
#[derive(Debug)]
pub struct ModelsResponse {
    /// Object type
    pub object: String,
    /// List of models
    pub data: Vec<Model>,
}

/// Model structure
#[derive(Debug)]
pub struct Model {
    /// Model ID
    pub id: String,
    /// Object type
    pub object: String,
    /// Creation timestamp
    pub created: i64,
    /// Owner of the model
    pub owned_by: String,
}

} // verus!
