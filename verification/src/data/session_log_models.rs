//! The session log: the entries that the redactor reads and rewrites.
//!
//! Floating-point measurements are held as the bit patterns that
//! `f64::to_bits` gives, so that a log passes through unchanged.

use std::collections::HashMap;
use vstd::prelude::*;

verus! {

/// AI architecture types
pub enum Architecture {
    /// Neocortex architecture type
    Neocortex,
}

/// Timing metrics for individual functions (each an `f64` bit pattern)
pub struct TotalFunctionTimes {
    /// Timestamp of measurement
    pub timestamp: u64,
    /// Time taken to retrieve state
    pub retrieve_state: u64,
    /// Time taken to get rules
    pub get_rules: u64,
    /// Time taken to get groups
    pub get_groups: u64,
    /// Time taken to get devices
    pub get_devices: u64,
    /// Time taken to get response
    pub get_response: u64,
}

/// Aggregated timing information
pub struct TimeSummary {
    /// Detailed timing breakdown
    pub total_function_times: TotalFunctionTimes,
    /// Total request processing time (an `f64` bit pattern)
    pub total_request_time: u64,
}

/// Property definition for function parameters
pub struct Property {
    /// Property type
    pub ty: String,
    /// Property description
    pub description: String,
}

/// Function parameter metadata
pub struct Parameters {
    /// Parameter type
    pub ty: Option<String>,
    /// parameter properties
    pub properties: Option<HashMap<String, Property>>,
    /// parameter required flag
    pub required: Option<Vec<String>>,
}

/// AI function definition
pub struct Function {
    /// Function name
    pub name: String,
    /// function description field
    pub description: Option<String>,
    /// function parameters section
    pub parameters: Option<Parameters>,
    /// arguments string
    pub arguments: Option<String>,
}

/// AI tool invocation record
pub struct ToolCall {
    /// Call index
    pub index: i32,
    /// Called function details
    pub function: Function,
    /// Call ID
    pub id: String,
    /// Call type
    pub ty: String,
}

/// Architecture type wrapper
pub struct ArchTypeItem {
    /// architecture type mark
    pub architecture_type: Architecture,
}

/// Reference to tool calls
pub struct ToolCallRef {
    /// turn number
    pub turn: Option<i32>,
    /// List of tool call references
    pub tool_calls: Vec<String>,
}

/// Collection of tool call references
pub struct ToolCallsItem {
    /// List of tool call references
    pub tool_calls: Vec<ToolCallRef>,
}

/// Chat message with optional tool calls
pub struct ChatMessageItem {
    /// Message role (user/system/assistant)
    pub role: String,
    /// Message content
    pub content: String,
    /// tool calls list
    pub tool_calls: Option<Vec<ToolCall>>,
    /// turn number
    pub turn: Option<i32>,
}

/// Time summary wrapper
pub struct TimeSummaryItem {
    /// Time summary in seconds
    pub time_summary_s: TimeSummary,
}

/// AI chat request
pub struct Request {
    /// Chat history
    pub chat_history: Vec<ChatMessageItem>,
    /// Available functions
    pub functions: Vec<Function>,
    /// Model name
    pub model: String,
    /// GPT client identifier
    pub gpt_client: String,
}

/// AI chat response
pub struct Response {
    /// agent name
    pub agent: Option<String>,
    /// chat message section
    pub message: Option<ChatMessageItem>,
}

/// Content item with type
pub struct ContentItem {
    /// Content text
    pub text: String,
    /// Content type
    pub ty: String,
}

/// Extended chat history item
pub struct ChatHistoryItem {
    /// Message role
    pub role: String,
    /// Message content (string or structured)
    pub content: serde_json::Value,
    /// tool calls section
    pub tool_calls: Option<Vec<ToolCall>>,
    /// tool call id string
    pub tool_call_id: Option<String>,
}

/// Complete chat interaction
pub struct ChatGpt {
    /// Request data
    pub request: Request,
    /// Response data
    pub response: Response,
    /// Processing time (an `f64` bit pattern)
    pub time: u64,
}

/// Chat interaction wrapper
pub struct ChatGptItem {
    /// Chat GPT interaction data
    pub chat_gpt: ChatGpt,
}

/// Union of all possible session log entry types
pub enum SessionLogEntry {
    /// Architecture type entry
    ArchTypeEnum(ArchTypeItem),
    /// Tool calls reference entry
    ToolCallRefsEnum(ToolCallsItem),
    /// Chat message entry
    ChatMessageEnum(ChatMessageItem),
    /// Chat GPT interaction entry
    ChatGptEnum(ChatGptItem),
    /// Timing summary entry
    TimeSummaryEnum(TimeSummaryItem),
}

/// Session log containing multiple entries
pub type SessionLog = Vec<SessionLogEntry>;

impl Default for Parameters {
    fn default() -> (res: Self)
        ensures
            res.ty is None && res.properties is None && res.required is None,
    {
        Parameters { ty: None, properties: None, required: None }
    }
}

impl Default for Function {
    fn default() -> (res: Self)
        ensures
            res.name@.len() == 0 && res.description is None && res.parameters is None
                && res.arguments is None,
    {
        Function { name: String::new(), description: None, parameters: None, arguments: None }
    }
}

impl Default for Response {
    fn default() -> (res: Self)
        ensures
            res.agent is None && res.message is None,
    {
        Response { agent: None, message: None }
    }
}

} // verus!
