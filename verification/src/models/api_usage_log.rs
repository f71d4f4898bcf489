//! API usage records.
use vstd::prelude::*;

verus! {

/// Kind of API call.
#[derive(Debug, Clone, Copy, PartialEq, Eq, Structural)]
pub enum ApiModality {
    Llm,
    Image,
    Tts,
}

impl ApiModality {
    /// The stored text of the modality.
    pub fn as_str(&self) -> (r: &'static str)
        ensures
            r@ == match *self {
                ApiModality::Llm => "llm"@,
                ApiModality::Image => "image"@,
                ApiModality::Tts => "tts"@,
            },
    {
        match self {
            ApiModality::Llm => "llm",
            ApiModality::Image => "image",
            ApiModality::Tts => "tts",
        }
    }
}

/// One recorded API call.
#[derive(Debug, Clone)]
pub struct ApiUsageLog {
    pub id: String,
    pub session_id: String,
    pub model: String,
    pub provider: String,
    pub modality: String,
    pub prompt_tokens: i64,
    pub completion_tokens: i64,
    pub total_tokens: i64,
    pub created_at: String,
}

/// Input for recording an API call.
#[derive(Debug, Clone)]
pub struct CreateApiUsageLog {
    pub id: String,
    pub session_id: String,
    pub model: String,
    pub provider: String,
    pub modality: String,
    pub prompt_tokens: i64,
    pub completion_tokens: i64,
    pub total_tokens: i64,
}

/// Totals over all recorded calls.
#[derive(Debug, Clone)]
pub struct ApiUsageSummary {
    pub total_prompt_tokens: i64,
    pub total_completion_tokens: i64,
    pub total_tokens: i64,
    pub call_count: i64,
}

/// Totals per model, provider and modality.
#[derive(Debug, Clone)]
pub struct ApiUsageByModel {
    pub model: String,
    pub provider: String,
    pub modality: String,
    pub prompt_tokens: i64,
    pub completion_tokens: i64,
    pub total_tokens: i64,
    pub call_count: i64,
}

} // verus!
