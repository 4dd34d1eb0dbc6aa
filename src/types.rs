//! The service's request and response shapes.
use vstd::prelude::*;

verus! {

/// A request that counts the tokens of some content.
#[derive(Debug)]
pub struct CountTokensRequest {
    pub contents: Content,
}

/// The answer to a [`CountTokensRequest`].
#[derive(Debug)]
pub struct CountTokensResponse {
    pub total_tokens: i32,
}

/// The functions a model may call.
#[derive(Debug)]
pub struct Tools {
    pub function_declarations: Option<Vec<FunctionDeclaration>>,
}

/// Content sent to the service, where the role may be left out.
#[derive(Debug)]
pub struct RequestContent {
    pub role: Option<String>,
    pub parts: Vec<Part>,
}

/// Content produced by one side of a conversation.
#[derive(Debug)]
pub struct Content {
    pub role: String,
    pub parts: Vec<Part>,
}

/// One unit of content: exactly one of text, inline bytes, a file
/// reference, or a function call.
#[derive(Debug)]
pub enum Part {
    Text(String),
    InlineData { mime_type: String, data: String },
    FileData { mime_type: String, file_uri: String },
    /// The arguments, by name. Arguments read from JSON come sorted by name,
    /// and their names are distinct (`part_wf`).
    FunctionCall { name: String, args: Vec<(String, String)> },
}

/// One element of a streamed answer: a chunk of content or an in-band error.
#[derive(Debug)]
pub enum GenerateContentResponse {
    Chunk(GenerateContentResponseChunk),
    Error(GenerateContentResponseError),
}

/// One increment of a streamed generation.
#[derive(Debug)]
pub struct GenerateContentResponseChunk {
    pub candidates: Vec<Candidate>,
    pub usage_metadata: Option<UsageMetadata>,
}

/// One alternative generation. The content is absent where it was
/// suppressed, for instance for safety.
#[derive(Debug)]
pub struct Candidate {
    pub content: Option<Content>,
    pub citation_metadata: Option<CitationMetadata>,
    pub safety_ratings: Option<Vec<SafetyRating>>,
    pub finish_reason: Option<String>,
}

#[derive(Debug)]
pub struct SafetyRating {
    pub category: String,
    pub probability: String,
}

#[derive(Debug)]
pub struct Citation {
    pub end_index: u32,
    pub license: String,
    pub start_index: u32,
    pub uri: String,
}

#[derive(Debug)]
pub struct CitationMetadata {
    pub citation_sources: Vec<Citation>,
}

#[derive(Debug)]
pub struct UsageMetadata {
    pub candidates_token_count: Option<i32>,
    pub prompt_token_count: i32,
    pub total_token_count: i32,
}

#[derive(Debug)]
pub struct FunctionDeclaration {
    pub name: String,
    pub description: String,
    pub parameters: FunctionParameters,
}

#[derive(Debug)]
pub struct FunctionParameters {
    /// The JSON key is `type`.
    pub kind: String,
    /// The properties, by name; a well-formed declaration has distinct
    /// names (`declaration_wf`).
    pub properties: Vec<(String, FunctionParametersProperty)>,
    pub required: Vec<String>,
}

#[derive(Debug)]
pub struct FunctionParametersProperty {
    /// The JSON key is `type`.
    pub kind: String,
    pub description: String,
}

/// An in-band failure reported by the service in place of a chunk.
#[derive(Debug)]
pub struct GenerateContentResponseError {
    pub error: GenerateContentResponseErrorDetails,
}

#[derive(Debug)]
pub struct GenerateContentResponseErrorDetails {
    pub code: i32,
    pub message: String,
    pub status: String,
}

} // verus!
