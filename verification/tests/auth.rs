use sys_config::handlers::auth::{
    auth_get_current_user, auth_get_user_info, auth_login, auth_logout, auth_refresh_token,
    LoginRequest,
};

#[test]
fn login_issues_the_mock_token_and_echoes_the_username() {
    let resp = auth_login(LoginRequest {
        username: "alice".to_string(),
        password: "secret".to_string(),
    })
    .unwrap();
    assert_eq!(resp.token, "mock-token");
    assert_eq!(resp.user.id, 1);
    assert_eq!(resp.user.username, "alice");
    assert_eq!(resp.user.real_name, "Test User");
    assert_eq!(resp.user.email, "test@example.com");
    assert_eq!(resp.user.phone, "1234567890");
    assert_eq!(resp.user.permissions, vec!["*".to_string()]);
    assert_eq!(resp.user.status, 1);
    assert_eq!(resp.user.create_time, "2024-01-01");
    assert_eq!(resp.user.last_login_time, "2024-01-01");
    assert_eq!(resp.user.roles.len(), 1);
    let role = &resp.user.roles[0];
    assert_eq!(role.id, 1);
    assert_eq!(role.name, "管理员");
    assert_eq!(role.code, "admin");
    assert_eq!(role.description, "系统管理员");
    assert_eq!(role.permissions, vec!["*".to_string()]);
    assert_eq!(role.status, 1);
    assert_eq!(role.create_time, "2024-01-01");
}

#[test]
fn logout_always_succeeds() {
    assert!(auth_logout().is_ok());
}

#[test]
fn current_user_is_the_fixed_admin() {
    let user = auth_get_current_user().unwrap();
    assert_eq!(user.username, "admin");
    assert_eq!(user.roles[0].code, "admin");
}

#[test]
fn refresh_returns_the_replacement_token() {
    assert_eq!(auth_refresh_token().unwrap(), "new-mock-token");
}

#[test]
fn user_info_answers_like_current_user() {
    let a = auth_get_current_user().unwrap();
    let b = auth_get_user_info().unwrap();
    assert_eq!(a.username, b.username);
    assert_eq!(a.roles.len(), b.roles.len());
}
