//! Decision logic of a polkit authentication agent: the auth state machine
//! and request queue, the helper line protocol, prompt text and line editing.
pub mod text;
pub mod state;
pub mod polkit_helper;
pub mod prompt_ui;
pub mod prompt;
pub mod text_map;
pub mod agent;
pub mod proc_stat;
pub mod runtime;
pub mod authority;
pub mod daemon;
