//! Sessions of the embedded views that talk to research services.

use vstd::prelude::*;

verus! {

/// The stored session of one service.
#[derive(Debug, PartialEq, Eq)]
pub struct WebViewSession {
    pub id: String,
    pub service: String,
    pub user_data_dir: String,
    pub cookies_file: Option<String>,
    /// Milliseconds since the Unix epoch, UTC.
    pub last_active: i64,
    pub is_logged_in: bool,
    /// Milliseconds since the Unix epoch, UTC.
    pub created_at: i64,
}

impl Clone for WebViewSession {
    fn clone(&self) -> (copy: Self)
        ensures
            copy == *self,
    {
        WebViewSession {
            id: self.id.clone(),
            service: self.service.clone(),
            user_data_dir: self.user_data_dir.clone(),
            cookies_file: self.cookies_file.clone(),
            last_active: self.last_active,
            is_logged_in: self.is_logged_in,
            created_at: self.created_at,
        }
    }
}

/// What a caller gives to open a session.
#[derive(Debug)]
pub struct CreateWebViewSessionRequest {
    pub service: String,
}

/// Whether a service is logged in, as last checked.
#[derive(Debug)]
pub struct LoginStatus {
    pub service: String,
    pub is_logged_in: bool,
    /// Milliseconds since the Unix epoch, UTC.
    pub last_checked: i64,
    pub requires_action: Option<String>,
}

} // verus!
