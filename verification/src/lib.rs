//! Screencast bookkeeping, cross-window anchoring and window-rule matching
//! for a scrollable-tiling Wayland compositor, with machine-checked contracts.

pub mod anchor;
pub mod strings;
pub mod window;
pub mod screencasting;
pub mod introspect;
pub mod screen_cast;
pub mod kdl;
pub mod cast_state;
