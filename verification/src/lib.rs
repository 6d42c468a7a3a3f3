//! A selectable container list: the roster read from a runtime's listing,
//! the cursor that moves over it, the reaction to each host event, and the
//! text that shows the list.

pub mod text;
pub mod roster;
pub mod state;
pub mod render;
pub mod dispatch;
