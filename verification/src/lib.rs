//! Context compaction for long conversations.

pub mod cadence;
pub mod cadence_laws;
pub mod cadence_lines;
pub mod cadence_view;
pub mod capture;
pub mod chat_widget;
pub mod checkpoint;
pub mod checkpoint_laws;
pub mod config;
pub mod items;
pub mod keys;
pub mod merge;
pub mod merge_laws;
pub mod provider_picker;
pub mod request;
pub mod settings;
pub mod summaries;
pub mod text;
pub mod text_laws;
pub mod voice;
pub mod widget_laws;
