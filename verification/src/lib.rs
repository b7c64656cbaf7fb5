//! Context management for a coding agent: which parts of a conversation are kept, stripped or
//! summarized, which rule files accompany it, how an image is described to it, and the dialogs
//! through which all of that is configured.

pub mod call_laws;
pub mod compact_modal;
pub mod compaction;
pub mod compaction_settings;
pub mod content_laws;
pub mod dialog_calls;
pub mod dialog_laws;
pub mod exchange_laws;
pub mod form;
pub mod image;
pub mod json;
pub mod markdown;
pub mod message;
pub mod piece_laws;
pub mod plan_laws;
pub mod provider;
pub mod provider_laws;
pub mod provider_modal;
pub mod rules;
pub mod rules_laws;
pub mod rules_settings;
pub mod settings;
pub mod stripping;
pub mod stripping_laws;
pub mod summary;
pub mod text;
pub mod thread;
pub mod vision;
pub mod vision_laws;
pub mod zones;
