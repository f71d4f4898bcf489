pub mod api_usage_log;
pub mod app_setting;
pub mod category;
pub mod entry_link;
pub mod entry_relation;
pub mod entry_type;
pub mod idea_note;
pub mod project;
pub mod entry;
