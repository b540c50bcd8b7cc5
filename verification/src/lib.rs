//! Verified core of the agent terminal UI: text helpers, selection models,
//! focus cycling, fuzzy ranking, call-tree parsing and worker decisions.

pub mod agent_events;
pub mod agent_turn;
pub mod attach;
pub mod beads;
pub mod chat_layout;
pub mod chat_view;
pub mod city_ops;
pub mod city_view;
pub mod command_catalog;
pub mod completion;
pub mod console;
pub mod dir_summary;
pub mod fleet_panel;
pub mod focus;
pub mod fuzzy;
pub mod geometry;
pub mod header;
pub mod help;
pub mod helpers;
pub mod hit;
pub mod keys;
pub mod input;
pub mod input_view;
pub mod kitty;
pub mod layout;
pub mod markdown;
pub mod modal_text;
pub mod normal_keys;
pub mod order;
pub mod picker_files;
pub mod picker_view;
pub mod overlay_keys;
pub mod prompt;
pub mod search;
pub mod session_runtime;
pub mod sessions_list;
pub mod sessions_panel;
pub mod settings;
pub mod slash;
pub mod slash_args;
pub mod slash_command;
pub mod slash_state;
pub mod status;
pub mod text;
pub mod theme;
pub mod toast;
pub mod tree_lines;
pub mod tree_view;
pub mod worker;
pub mod wrap;
pub mod wish;
