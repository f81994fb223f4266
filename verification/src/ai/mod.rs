pub mod claude;
pub mod client;
pub mod types;

pub use claude::ClaudeClient;
pub use client::{AiClient, MockAiClient};
pub use types::{AssessmentError, AssessmentResult, ChunkingError, ChunkingResult};
