//! The editing and rendering engine of a terminal text editor: a rope-backed
//! text buffer, a cursor that moves in characters and is shown in display
//! columns, scroll offsets, a per-line viewport cache with per-byte colours,
//! and the tab set that parks unsaved documents.

pub mod text;
pub mod rope;
pub mod buffer;
pub mod width;
pub mod scroll;
pub mod editor;
pub mod highlight;
pub mod strings;
pub mod viewport;
pub mod render;
pub mod language;
pub mod syntax;
pub mod paths;
pub mod preview;
pub mod parked;
pub mod session;
pub mod sidebar;
