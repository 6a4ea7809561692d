//! Verified decision logic of the Cursor Hero tools and UI-automation helpers.

pub mod about_text;
pub mod calculator;
pub mod click_tool;
pub mod cursor_monitor_position_tool;
pub mod element_info;
pub mod elements_at_point;
pub mod focus_tool;
pub mod formatting;
pub mod gather_children;
pub mod gather_tree;
pub mod hello_tool;
pub mod keyboard_tool;
pub mod level_bounds_visibility_tool;
pub mod path;
pub mod resolve_app;
pub mod scroll_tool;
pub mod talk_tool;
pub mod taskbar;
pub mod text;
pub mod tool_naming;
pub mod tool_spawning;
pub mod vscode;
