//! Builds configuration profiles that install custom fonts on Apple mobile
//! devices: a profile model, its property-list renderer, identifier
//! generation, and the rules that pick font files out of scanned paths.

mod collect;
mod error;
mod mobileconfig;
mod path;
mod plist;
mod uuid;

pub use crate::collect::{collect_font_files, is_font_file, should_scan, InputPath, ScannedFile};
pub use crate::error::ProfileError;
pub use crate::mobileconfig::{FontPayload, MobileConfig, CONSENT_TEXT, MAX_FONTS};
pub use crate::path::{file_base_name, file_extension};
pub use crate::plist::{escape_markup, wrap_text, wrapped_base64};
pub use crate::uuid::{format_uuid, generate_uuid};
