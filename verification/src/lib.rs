//! Todo and research-tracking engine: entities, status rules and the
//! repository operations over an explicitly owned store.

pub mod clock;
pub mod db;
pub mod ident;
pub mod models;
pub mod ranking;
pub mod rows;
pub mod text;
pub mod todo;
