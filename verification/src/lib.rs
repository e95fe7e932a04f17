pub mod text;
pub mod json;
pub mod paste;
pub mod path_abbrev;
pub mod pr_status;
pub mod ide_open;
pub mod ime;
pub mod i18n;
pub mod icons;
pub mod cli;
pub mod ghostty_color;
pub mod ghostty_config;
pub mod mouse_report;
pub mod keys;
pub mod color_picker;
pub mod git_pane;
pub mod commit_pane;
pub mod focus;
pub mod motion;
pub mod new_task;
pub mod import_prompt;
pub mod hooks;
pub mod agent_status;
pub mod workspace;
