//! Small stateless helpers used around calls to a text-generation service:
//! retry backoff delays, error-message extraction from response bodies, and
//! removal of citation markup from generated text.
pub mod backoff;
pub mod citation;
pub mod error_message;
pub mod report;
pub mod text;

pub use backoff::{backoff, backoff_delay_ms, base_delay_ms};
pub use citation::strip_citation_markup;
pub use error_message::{error_message_or_text, try_parse_error_message};
pub use report::{error_or_panic, ErrorAction};
