pub mod chat;
pub mod errors;
pub mod models;

pub use chat::{
    ChatCompletionChunk, ChatCompletionRequest, ChatCompletionResponse, ChatMessage,
    ChatMessageDelta, Choice, ChoiceDelta, CompletionUsage, FunctionCall, FunctionCallDelta,
    StreamOptions, ToolCall, ToolCallDelta,
};
pub use errors::{ApiError, ErrorResponse};
pub use models::{Model, ModelList};
