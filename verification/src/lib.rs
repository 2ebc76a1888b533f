//! An OpenAI-compatible front for Kagi Assistant: the request checks, the
//! mapping between the two chat formats, the reading of Kagi's message
//! stream, and the errors and settings of the server, each proved against
//! its contract.
pub mod clock;
pub mod config;
pub mod error;
pub mod json;
pub mod kagi;
pub mod numbers;
pub mod openai;
pub mod routes;
pub mod text;
pub mod utf8;
