//! A client library for a streaming generative-content service.
//!
//! The service answers with one JSON array whose elements arrive over time.
//! The modules here split that byte stream into elements, read each element
//! into a JSON tree, classify it as a content chunk or an in-band error, and
//! aggregate the text of the chunks in arrival order.
pub use types::{
    Candidate, Citation, CitationMetadata, Content, CountTokensRequest, CountTokensResponse,
    FunctionDeclaration, FunctionParameters, FunctionParametersProperty, GenerateContentResponse,
    GenerateContentResponseChunk, GenerateContentResponseError, GenerateContentResponseErrorDetails,
    Part, RequestContent, SafetyRating, Tools, UsageMetadata,
};

pub mod json;
pub mod scanner;
pub mod types;
pub mod decode;
pub mod encode;
pub mod aggregate;
pub mod pipeline;
