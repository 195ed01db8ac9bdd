//! The mock authentication endpoints. Authentication is stubbed: every
//! operation answers with fixed data, pinned exactly by the contracts, so a
//! real provider can be substituted without touching the configuration
//! store.

use vstd::prelude::*;

verus! {

/// Credentials as sent by the front end.
#[derive(Debug)]
pub struct LoginRequest {
    pub username: String,
    pub password: String,
}

/// A role a user holds.
#[derive(Debug)]
pub struct Role {
    pub id: i32,
    pub name: String,
    pub code: String,
    pub description: String,
    pub permissions: Vec<String>,
    pub status: i32,
    pub create_time: String,
}

/// A user account as shown to the front end.
#[derive(Debug)]
pub struct User {
    pub id: i32,
    pub username: String,
    pub real_name: String,
    pub email: String,
    pub phone: String,
    pub roles: Vec<Role>,
    pub permissions: Vec<String>,
    pub status: i32,
    pub create_time: String,
    pub last_login_time: String,
}

/// A successful login: the issued token and the user it belongs to.
#[derive(Debug)]
pub struct LoginResponse {
    pub token: String,
    pub user: User,
}

/// The fixed administrator role every mock answer carries.
pub open spec fn mock_admin_role(r: Role) -> bool {
    &&& r.id == 1
    &&& r.name@ == "管理员"@
    &&& r.code@ == "admin"@
    &&& r.description@ == "系统管理员"@
    &&& r.permissions@.len() == 1
    &&& r.permissions@[0]@ == "*"@
    &&& r.status == 1
    &&& r.create_time@ == "2024-01-01"@
}

/// The fixed user record, under the given user name.
pub open spec fn mock_user(u: User, username: Seq<char>) -> bool {
    &&& u.id == 1
    &&& u.username@ == username
    &&& u.real_name@ == "Test User"@
    &&& u.email@ == "test@example.com"@
    &&& u.phone@ == "1234567890"@
    &&& u.roles@.len() == 1
    &&& mock_admin_role(u.roles@[0])
    &&& u.permissions@.len() == 1
    &&& u.permissions@[0]@ == "*"@
    &&& u.status == 1
    &&& u.create_time@ == "2024-01-01"@
    &&& u.last_login_time@ == "2024-01-01"@
}

/// Builds the fixed administrator role.
fn make_mock_role() -> (r: Role)
    ensures
        mock_admin_role(r),
{
    let mut permissions: Vec<String> = Vec::new();
    permissions.push(String::from_str("*"));
    Role {
        id: 1,
        name: String::from_str("管理员"),
        code: String::from_str("admin"),
        description: String::from_str("系统管理员"),
        permissions,
        status: 1,
        create_time: String::from_str("2024-01-01"),
    }
}

/// Builds the fixed user record under the given user name.
fn make_mock_user(username: String) -> (u: User)
    ensures
        mock_user(u, username@),
{
    let mut roles: Vec<Role> = Vec::new();
    roles.push(make_mock_role());
    let mut permissions: Vec<String> = Vec::new();
    permissions.push(String::from_str("*"));
    User {
        id: 1,
        username,
        real_name: String::from_str("Test User"),
        email: String::from_str("test@example.com"),
        phone: String::from_str("1234567890"),
        roles,
        permissions,
        status: 1,
        create_time: String::from_str("2024-01-01"),
        last_login_time: String::from_str("2024-01-01"),
    }
}

/// Mock login: always succeeds, issuing the fixed token and echoing the
/// requested user name inside the fixed user record.
pub fn auth_login(data: LoginRequest) -> (r: Result<LoginResponse, String>)
    ensures
        r is Ok,
        r->Ok_0.token@ == "mock-token"@,
        mock_user(r->Ok_0.user, data.username@),
{
    Ok(LoginResponse { token: String::from_str("mock-token"), user: make_mock_user(data.username) })
}

/// Mock logout: always succeeds.
pub fn auth_logout() -> (r: Result<(), String>)
    ensures
        r is Ok,
{
    Ok(())
}

/// Mock current-user lookup: always the fixed record under `"admin"`.
pub fn auth_get_current_user() -> (r: Result<User, String>)
    ensures
        r is Ok,
        mock_user(r->Ok_0, "admin"@),
{
    Ok(make_mock_user(String::from_str("admin")))
}

/// Mock token refresh: always the fixed replacement token.
pub fn auth_refresh_token() -> (r: Result<String, String>)
    ensures
        r is Ok,
        r->Ok_0@ == "new-mock-token"@,
{
    Ok(String::from_str("new-mock-token"))
}

/// Mock user-info lookup: answers as the current-user lookup does.
pub fn auth_get_user_info() -> (r: Result<User, String>)
    ensures
        r is Ok,
        mock_user(r->Ok_0, "admin"@),
{
    auth_get_current_user()
}

} // verus!
