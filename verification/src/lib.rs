//! Parser for desktop-entry files: INI-like `[Group]` / `Key=Value` text
//! describing launchable applications, links, and directories.
//!
//! Parsing happens in two verified stages: a raw tokenizer that turns the
//! text into a group -> key -> value mapping, and a typed projector that
//! validates the `"Desktop Entry"` group into one of three entry variants.

pub mod error;
pub mod laws;
pub mod raw;
pub mod text;
pub mod typed;

pub use error::Error;
pub use raw::RawDesktopEntry;
pub use raw::RawGroup;
pub use raw::parse_desktop_entry_raw;
pub use typed::ApplicationDesktopEntry;
pub use typed::DesktopEntryType;
pub use typed::DirectoryDesktopEntry;
pub use typed::LinkDesktopEntry;
pub use typed::parse_desktop_entry;
