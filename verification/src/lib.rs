//! An OpenAI Chat Completions face for an Anthropic Messages service.
//!
//! A chat request of OpenAI becomes a messages request of Anthropic
//! ([`request`], [`content`]); the message that answers it becomes a completion
//! ([`response`]), or, where it is streamed, a stream of chunks ([`stream`]).
//! [`notices`] tells what of a request is passed over, and [`gateway`] holds what
//! the endpoint around them decides. [`json`] is the model of JSON over which all
//! contracts speak, and [`serde_value`] the passage to `serde_json`.
//!
//! The laws say what all this is for, in the words of one who reads the results
//! field by field ([`reading`]): [`turn_laws`] of what the service is asked,
//! [`completion_laws`] and [`chunk_laws`] of what the client is told, [`request_laws`]
//! and [`stream_laws`] of whole conversations and streams, and [`value_laws`] of the
//! values and answers of which they are made.

pub mod chunk_laws;
pub mod completion_laws;
pub mod content;
pub mod gateway;
pub mod identity;
pub mod json;
pub mod notices;
pub mod reading;
pub mod request;
pub mod request_laws;
pub mod response;
pub mod serde_value;
pub mod stream;
pub mod stream_laws;
pub mod text;
pub mod turn_laws;
pub mod value_laws;
