use vstd::prelude::*;
use crate::ids::UserId;

verus! {

// The request and response shapes of the surrounding HTTP API. The
// transport layer validates, serializes and routes them; this crate
// only defines the values its collaborators hand around, with outside
// identifiers and timestamps carried as plain values.

/// Registration request.
#[derive(Debug)]
pub struct RegisterRequest {
    pub username: String,
    pub email: String,
    pub password: String,
}

/// Login request.
#[derive(Debug)]
pub struct LoginRequest {
    pub email: String,
    pub password: String,
}

/// A user as returned to clients.
#[derive(Debug)]
pub struct UserResponse {
    pub id: UserId,
    pub username: String,
    pub email: String,
    pub avatar_url: Option<String>,
    pub bio: Option<String>,
    pub theme: String,
    pub role: String,
    pub notification_enabled: bool,
    pub created_at: String,
}

/// Successful authentication: the token pair plus the user.
#[derive(Debug)]
pub struct AuthResponse {
    pub access_token: String,
    pub refresh_token: String,
    pub user: UserResponse,
}

/// Request to exchange a refresh token.
#[derive(Debug)]
pub struct RefreshTokenRequest {
    pub refresh_token: String,
}

/// A fresh access token.
#[derive(Debug)]
pub struct RefreshTokenResponse {
    pub access_token: String,
}

/// The query parameters of the identity provider's callback.
#[derive(Debug)]
pub struct GoogleCallback {
    pub code: String,
    pub state: String,
}

/// The claims carried by an access token.
#[derive(Debug)]
pub struct Claims {
    pub sub: String,
    pub email: String,
    pub role: String,
    pub exp: i64,
}

/// Static configuration the process starts with; read from the
/// environment by the caller.
#[derive(Debug)]
pub struct Config {
    pub jwt_secret: String,
    pub jwt_expiration_hours: i64,
    pub google_client_id: String,
    pub google_client_secret: String,
    pub google_redirect_uri: String,
}

/// Request to change a task's status.
#[derive(Debug)]
pub struct UpdateTaskStatusRequest {
    pub status: String,
}

/// Request to switch notifications on or off.
#[derive(Debug)]
pub struct UpdateNotificationPreferencesRequest {
    pub notification_enabled: bool,
}

/// One page of results.
#[derive(Debug)]
pub struct PaginatedResponse<T> {
    pub data: Vec<T>,
    pub total: i64,
    pub page: u32,
    pub limit: u32,
    pub total_pages: u32,
}

/// Request to update the caller's own profile.
#[derive(Debug)]
pub struct UpdateProfileRequest {
    pub username: Option<String>,
    pub bio: Option<String>,
    pub theme: Option<String>,
    pub avatar_url: Option<String>,
}

/// Filtering, search and paging options of the task list.
#[derive(Debug)]
pub struct TaskFilters {
    pub status: Option<String>,
    pub priority: Option<String>,
    pub search: Option<String>,
    pub sort_by: Option<String>,
    pub sort_order: Option<String>,
    pub page: Option<u32>,
    pub limit: Option<u32>,
}

/// Paging parameters of list endpoints.
#[derive(Debug)]
pub struct PaginationParams {
    pub page: Option<u32>,
    pub limit: Option<u32>,
}

/// An administrator's update of another user.
#[derive(Debug)]
pub struct AdminUpdateUserRequest {
    pub username: Option<String>,
    pub email: Option<String>,
    pub bio: Option<String>,
    pub theme: Option<String>,
    pub avatar_url: Option<String>,
    pub is_admin: Option<bool>,
    pub is_active: Option<bool>,
}

/// Request to activate or deactivate a user.
#[derive(Debug)]
pub struct UpdateUserStatusRequest {
    pub is_active: bool,
}

/// Request to grant or revoke administrator rights.
#[derive(Debug)]
pub struct UpdateAdminStatusRequest {
    pub is_admin: bool,
}

} // verus!
