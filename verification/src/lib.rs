//! Verified core of an OPC UA browser: the address-space model, the
//! update/dispatch state machine, user-input parsing for method calls, and
//! the text renderings that the front ends display.
pub mod collections;
pub mod text;
pub mod node_id;
pub mod types;
pub mod render;
pub mod parse;
pub mod model;
pub mod endpoints;
pub mod engine;
pub mod tui_view;
pub mod browse;
pub mod connection;
pub mod summary;
pub mod tui_state;
pub mod widgets;
pub mod gui_view;
pub mod logging;
pub mod dialogs;
pub mod laws;

use vstd::prelude::*;

verus! {

} // verus!
