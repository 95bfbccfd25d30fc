//! Typed configuration values read from human-readable text: durations such as
//! `"500ms"`, byte sizes such as `"10mi"`, and secrets that are only shown masked.
pub mod duration;
pub mod error;
pub mod memory;
pub mod secret;
pub mod text;

pub use crate::duration::{format_duration, parse_duration, DurationConf};
pub use crate::error::{ParseErrorKind, ValidationError};
pub use crate::memory::{parse_byte_size, ByteSizeConf};
pub use crate::secret::SecretConf;
