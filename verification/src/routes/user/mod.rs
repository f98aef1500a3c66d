//! User management requests and responses.

use vstd::prelude::*;

pub mod handlers;
pub mod types;

verus! {

/// Request to register a new user.
#[derive(Debug)]
pub struct RegisterRequest {
    /// Username (3-50 chars, alphanumeric/underscore/hyphen)
    pub username: String,
    /// Display name (1-100 chars)
    pub display_name: String,
    /// Email address (optional)
    pub email: Option<String>,
    /// Password (8-128 chars)
    pub password: String,
}

/// Request to create a new user (admin-only, can set role).
#[derive(Debug)]
pub struct CreateUserRequest {
    /// Username
    pub username: String,
    /// Display name
    pub display_name: String,
    /// User email
    pub email: Option<String>,
    /// User password
    pub password: String,
    /// User role (admin-only)
    pub role: Option<String>,
}

/// Request to update a user.
#[derive(Debug)]
pub struct UpdateUserRequest {
    /// Display name
    pub display_name: Option<String>,
    /// User email
    pub email: Option<String>,
    /// User role (admin-only)
    pub role: Option<String>,
    /// Active status (admin-only)
    pub is_active: Option<bool>,
}

/// Request to update the current user's own profile.
#[derive(Debug)]
pub struct UpdateProfileRequest {
    /// Display name
    pub display_name: Option<String>,
    /// Email address
    pub email: Option<String>,
}

/// Request to change password.
#[derive(Debug)]
pub struct ChangePasswordRequest {
    /// Current password
    pub current_password: String,
    /// New password
    pub new_password: String,
}

/// Request for user authentication.
#[derive(Debug)]
pub struct AuthenticateRequest {
    /// Username or email
    pub username: String,
    /// User password
    pub password: String,
}

/// Authentication response.
#[derive(Debug)]
pub struct AuthenticateResponse {
    /// Success flag
    pub success: bool,
    /// User ID
    pub user_id: Option<String>,
    /// Access token
    pub access_token: Option<String>,
    /// Token type
    pub token_type: String,
    /// Token expires in (seconds)
    pub expires_in: u64,
    /// Error message
    pub error: Option<String>,
    /// User info
    pub user: Option<UserResponse>,
}

/// User response (never includes password_hash).
#[derive(Debug)]
pub struct UserResponse {
    /// User ID
    pub id: String,
    /// Username
    pub username: String,
    /// Display name
    pub display_name: String,
    /// Email
    pub email: Option<String>,
    /// User type
    pub user_type: String,
    /// Role
    pub role: String,
    /// Is active
    pub is_active: bool,
    /// Created at
    pub created_at: String,
    /// Updated at
    pub updated_at: String,
}

/// User list response.
#[derive(Debug)]
pub struct UserListResponse {
    /// List of users
    pub users: Vec<UserResponse>,
    /// Total count
    pub total: i64,
    /// Page number
    pub page: usize,
    /// Page size
    pub page_size: usize,
}

/// Query parameters for user listing.
#[derive(Debug)]
pub struct UserQuery {
    /// Page number
    pub page: Option<usize>,
    /// Page size
    pub page_size: Option<usize>,
    /// Role filter
    pub role: Option<String>,
}

/// Error response.
#[derive(Debug)]
pub struct UserErrorResponse {
    /// Error code
    pub code: String,
    /// Error message
    pub message: String,
}

} // verus!
