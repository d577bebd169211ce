//! Requests on their way to Grok and response streams on their way back.

pub mod index_table;
pub mod conversation;
pub mod fidelity;
pub mod lifecycle;
pub mod request;
pub mod stream;
pub mod summary;

pub use crate::translate::request::{translate_messages_request, TranslateError};
pub use crate::translate::stream::{AnthropicOut, StreamReducer};
pub use crate::translate::summary::{anthropic_out_debug, event_type_name};
