//! The entities of the todo and research domain, and the plain values that
//! requests carry.

pub mod research_result;
pub mod settings;
pub mod todo;
pub mod webview_session;
