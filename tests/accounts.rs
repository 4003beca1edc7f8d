use dashboard::app::{create_app, get_user_all_app, AppTable, CreateAppData};
use dashboard::auth::{login, LoginData};
use dashboard::crypto::{hash, hash_with_salt, verify, KdfParams};
use dashboard::errors::ErrorKind;
use dashboard::password::{update_password, UpdatePasswordData};
use dashboard::policy::{can_delete_user, can_manage_users, owns_resource};
use dashboard::setting::{update_setting, UpdateSettingData};
use dashboard::user::{
    create_user, delete_user, get_user_info, get_user_list, update_user, CreateUserData, GetUserListQuery,
    SettingTheme, UpdateUserData, UserTable,
};

fn quick_hash(password: &str) -> String {
    let params = KdfParams { time_cost: 1, mem_cost: 64, lanes: 1, hash_length: 32 };
    hash_with_salt(password, &[9u8; 16], params).unwrap()
}

/// Two administrators (ids 1 and 2) and a regular account (id 3).
fn table() -> UserTable {
    let mut t = UserTable::new();
    t.insert_user(&"admin".to_string(), quick_hash("adminpass"), &None, true, 1).unwrap();
    t.insert_user(&"second".to_string(), quick_hash("secondpass"), &None, true, 2).unwrap();
    t.insert_user(&"alice".to_string(), quick_hash("Secret123!"), &None, false, 3).unwrap();
    t
}

fn new_user(name: &str) -> CreateUserData {
    CreateUserData {
        username: name.to_string(),
        password: "Passw0rd!".to_string(),
        confirm_password: "Passw0rd!".to_string(),
        avatar: None,
    }
}

#[test]
fn login_returns_sanitized_user() {
    let t = table();
    let u = login(&t, &LoginData { username: "alice".to_string(), password: "Secret123!".to_string() }).unwrap();
    assert_eq!(u.id, 3);
    assert_eq!(u.username, "alice");
    assert!(!u.is_admin);
    assert_eq!(u.created_at, 3);
    let shown = format!("{:?}", u);
    assert!(!shown.contains("argon2"));
}

#[test]
fn login_end_to_end_with_stored_hash() {
    let mut t = UserTable::new();
    let stored = hash(&"Secret123!".to_string()).unwrap();
    t.insert_user(&"alice".to_string(), stored, &Some("a.png".to_string()), false, 77).unwrap();
    let u = login(&t, &LoginData { username: "alice".to_string(), password: "Secret123!".to_string() }).unwrap();
    assert_eq!(u.id, 1);
    assert_eq!(u.username, "alice");
    assert_eq!(u.avatar.as_deref(), Some("a.png"));
    assert_eq!(u.created_at, 77);
    assert!(!u.is_admin);
}

#[test]
fn login_failures_look_the_same() {
    let t = table();
    let wrong = login(&t, &LoginData { username: "alice".to_string(), password: "Secret123?".to_string() })
        .unwrap_err();
    let unknown = login(&t, &LoginData { username: "nobody".to_string(), password: "Secret123!".to_string() })
        .unwrap_err();
    assert_eq!(wrong.kind, ErrorKind::Unauthenticated);
    assert_eq!(unknown.kind, ErrorKind::Unauthenticated);
    assert_eq!(wrong.code, unknown.code);
    assert_eq!(wrong.message, unknown.message);
    assert_eq!(wrong.status_code(), 401);
}

#[test]
fn login_rejects_short_input() {
    let t = table();
    let e = login(&t, &LoginData { username: "al".to_string(), password: "Secret123!".to_string() }).unwrap_err();
    assert_eq!(e.kind, ErrorKind::ValidationFailed);
    assert_eq!(e.status_code(), 422);
}

#[test]
fn login_with_seeded_admin() {
    let t = UserTable::with_admin(&"username".to_string(), &"password".to_string(), 0).unwrap();
    let u = login(&t, &LoginData { username: "username".to_string(), password: "password".to_string() }).unwrap();
    assert!(u.is_admin);
    assert_eq!(u.id, 1);
}

#[test]
fn admin_creates_user() {
    let mut t = table();
    let u = create_user(&mut t, 1, &new_user("bob01"), 50).unwrap();
    assert_eq!(u.id, 4);
    assert_eq!(u.username, "bob01");
    assert!(!u.is_admin);
    assert_eq!(u.created_at, 50);
    assert!(verify(&t.get(3).password_hash, &"Passw0rd!".to_string()).unwrap());
    let back = login(&t, &LoginData { username: "bob01".to_string(), password: "Passw0rd!".to_string() }).unwrap();
    assert_eq!(back.id, 4);
}

#[test]
fn non_admin_cannot_create_user() {
    let mut t = table();
    let e = create_user(&mut t, 3, &new_user("bob01"), 0).unwrap_err();
    assert_eq!(e.kind, ErrorKind::Forbidden);
    assert_eq!(t.len(), 3);
}

#[test]
fn deleted_admin_cannot_create_user() {
    let mut t = table();
    let mut apps = AppTable::new();
    delete_user(&mut t, &mut apps, 1, 2, 9).unwrap();
    let e = create_user(&mut t, 2, &new_user("bob01"), 0).unwrap_err();
    assert_eq!(e.kind, ErrorKind::Forbidden);
    assert_eq!(e.status_code(), 403);
}

#[test]
fn unknown_operator_cannot_create_user() {
    let mut t = table();
    assert_eq!(create_user(&mut t, 42, &new_user("bob01"), 0).unwrap_err().kind, ErrorKind::Forbidden);
}

#[test]
fn create_user_conflicts_on_taken_username() {
    let mut t = table();
    let e = create_user(&mut t, 1, &new_user("alice"), 0).unwrap_err();
    assert_eq!(e.kind, ErrorKind::Conflict);
    assert_eq!(e.status_code(), 409);
    assert_eq!(t.len(), 3);
}

#[test]
fn create_user_validates_input() {
    let mut t = table();
    let mut d = new_user("_bob01");
    assert_eq!(create_user(&mut t, 1, &d, 0).unwrap_err().kind, ErrorKind::ValidationFailed);
    d = new_user("bob01");
    d.confirm_password = "Passw0rd?".to_string();
    assert_eq!(create_user(&mut t, 1, &d, 0).unwrap_err().kind, ErrorKind::ValidationFailed);
    d = new_user("bob01");
    d.password = "short".to_string();
    d.confirm_password = "short".to_string();
    assert_eq!(create_user(&mut t, 1, &d, 0).unwrap_err().kind, ErrorKind::ValidationFailed);
    d = new_user("bob 01");
    assert_eq!(create_user(&mut t, 1, &d, 0).unwrap_err().kind, ErrorKind::ValidationFailed);
}

#[test]
fn deleting_yourself_is_forbidden_even_for_admin() {
    let mut t = table();
    let mut apps = AppTable::new();
    let e = delete_user(&mut t, &mut apps, 1, 1, 0).unwrap_err();
    assert_eq!(e.kind, ErrorKind::Forbidden);
    let e = delete_user(&mut t, &mut apps, 3, 3, 0).unwrap_err();
    assert_eq!(e.kind, ErrorKind::Forbidden);
    assert_eq!(t.get(0).deleted_at, None);
}

#[test]
fn delete_user_requires_admin_and_live_target() {
    let mut t = table();
    let mut apps = AppTable::new();
    assert_eq!(delete_user(&mut t, &mut apps, 3, 1, 0).unwrap_err().kind, ErrorKind::Forbidden);
    assert_eq!(delete_user(&mut t, &mut apps, 1, 77, 0).unwrap_err().kind, ErrorKind::NotFound);
}

#[test]
fn delete_user_marks_account_and_apps() {
    let mut t = table();
    let mut apps = AppTable::new();
    let d = CreateAppData { url: "https://a.example".to_string(), name: "a".to_string(), description: None, icon: None };
    create_app(&mut apps, 3, &d, 0).unwrap();
    create_app(&mut apps, 3, &d, 0).unwrap();
    create_app(&mut apps, 1, &d, 0).unwrap();
    assert_eq!(delete_user(&mut t, &mut apps, 1, 3, 77).unwrap(), 2);
    assert_eq!(t.get(2).deleted_at, Some(77));
    assert!(get_user_all_app(&apps, 3).is_empty());
    assert_eq!(get_user_all_app(&apps, 1).len(), 1);
    assert_eq!(get_user_info(&t, 3).unwrap_err().kind, ErrorKind::NotFound);
    let e = login(&t, &LoginData { username: "alice".to_string(), password: "Secret123!".to_string() }).unwrap_err();
    assert_eq!(e.kind, ErrorKind::Unauthenticated);
    assert_eq!(delete_user(&mut t, &mut apps, 1, 3, 78).unwrap_err().kind, ErrorKind::NotFound);
}

#[test]
fn username_of_deleted_account_can_be_reused() {
    let mut t = table();
    let mut apps = AppTable::new();
    delete_user(&mut t, &mut apps, 1, 3, 5).unwrap();
    let u = create_user(&mut t, 1, &new_user("alice"), 6).unwrap();
    assert_eq!(u.id, 4);
    assert_eq!(get_user_info(&t, 4).unwrap().username, "alice");
}

#[test]
fn user_info_of_live_account() {
    let t = table();
    let u = get_user_info(&t, 2).unwrap();
    assert_eq!(u.username, "second");
    assert!(u.is_admin);
    assert_eq!(get_user_info(&t, 9).unwrap_err().kind, ErrorKind::NotFound);
}

#[test]
fn user_list_pages() {
    let t = table();
    let all = get_user_list(&t, 1, &GetUserListQuery { page: None, size: None }).unwrap();
    assert_eq!(all.total, 3);
    assert_eq!(all.items.iter().map(|u| u.id).collect::<Vec<i64>>(), vec![1, 2, 3]);
    let p2 = get_user_list(&t, 1, &GetUserListQuery { page: Some(2), size: Some(2) }).unwrap();
    assert_eq!(p2.total, 3);
    assert_eq!(p2.items.iter().map(|u| u.id).collect::<Vec<i64>>(), vec![3]);
    let p9 = get_user_list(&t, 1, &GetUserListQuery { page: Some(9), size: Some(2) }).unwrap();
    assert!(p9.items.is_empty());
    let huge = get_user_list(&t, 1, &GetUserListQuery { page: Some(u64::MAX), size: Some(u64::MAX) }).unwrap();
    assert!(huge.items.is_empty());
    assert_eq!(get_user_list(&t, 3, &GetUserListQuery { page: None, size: None }).unwrap_err().kind, ErrorKind::Forbidden);
    assert_eq!(
        get_user_list(&t, 1, &GetUserListQuery { page: Some(0), size: None }).unwrap_err().kind,
        ErrorKind::ValidationFailed
    );
}

#[test]
fn user_list_is_ordered_by_creation_time() {
    let mut t = UserTable::new();
    t.insert_user(&"admin".to_string(), quick_hash("adminpass"), &None, true, 30).unwrap();
    t.insert_user(&"carol".to_string(), quick_hash("carolpass"), &None, false, 10).unwrap();
    t.insert_user(&"dave1".to_string(), quick_hash("davepass1"), &None, false, 20).unwrap();
    t.insert_user(&"erin1".to_string(), quick_hash("erinpass1"), &None, false, 10).unwrap();
    let all = get_user_list(&t, 1, &GetUserListQuery { page: None, size: None }).unwrap();
    assert_eq!(all.items.iter().map(|u| u.id).collect::<Vec<i64>>(), vec![2, 4, 3, 1]);
    let p2 = get_user_list(&t, 1, &GetUserListQuery { page: Some(2), size: Some(3) }).unwrap();
    assert_eq!(p2.items.iter().map(|u| u.id).collect::<Vec<i64>>(), vec![1]);
    assert_eq!(p2.total, 4);
}

#[test]
fn update_user_checks_conflicts() {
    let mut t = table();
    let d = UpdateUserData { username: "second".to_string(), avatar: None };
    assert_eq!(update_user(&mut t, 3, &d).unwrap_err().kind, ErrorKind::Conflict);
    let d = UpdateUserData { username: "alice".to_string(), avatar: Some("a.png".to_string()) };
    let u = update_user(&mut t, 3, &d).unwrap();
    assert_eq!(u.avatar.as_deref(), Some("a.png"));
    let d = UpdateUserData { username: "alice2".to_string(), avatar: None };
    let u = update_user(&mut t, 3, &d).unwrap();
    assert_eq!(u.username, "alice2");
    assert_eq!(t.get(2).username, "alice2");
    assert_eq!(update_user(&mut t, 99, &d).unwrap_err().kind, ErrorKind::NotFound);
}

#[test]
fn update_password_requires_old_password() {
    let mut t = table();
    let bad = UpdatePasswordData {
        old_password: "Wrong1234".to_string(),
        password: "NewPass99".to_string(),
        confirm_password: "NewPass99".to_string(),
    };
    assert_eq!(update_password(&mut t, 3, &bad).unwrap_err().kind, ErrorKind::Forbidden);
    let good = UpdatePasswordData {
        old_password: "Secret123!".to_string(),
        password: "NewPass99".to_string(),
        confirm_password: "NewPass99".to_string(),
    };
    update_password(&mut t, 3, &good).unwrap();
    assert!(verify(&t.get(2).password_hash, &"NewPass99".to_string()).unwrap());
    assert!(!verify(&t.get(2).password_hash, &"Secret123!".to_string()).unwrap());
    assert_eq!(update_password(&mut t, 42, &good).unwrap_err().kind, ErrorKind::Forbidden);
    let mismatch = UpdatePasswordData {
        old_password: "NewPass99".to_string(),
        password: "NewPass99".to_string(),
        confirm_password: "NewPass98".to_string(),
    };
    assert_eq!(update_password(&mut t, 3, &mismatch).unwrap_err().kind, ErrorKind::ValidationFailed);
}

#[test]
fn update_setting_stores_preferences() {
    let mut t = table();
    let d = UpdateSettingData { theme: SettingTheme::Dark, bg_image: Some("bg.png".to_string()), bg_blur: Some(20) };
    let u = update_setting(&mut t, 3, &d).unwrap();
    let s = u.setting.unwrap();
    assert_eq!(s.theme, SettingTheme::Dark);
    assert_eq!(s.bg_image.as_deref(), Some("bg.png"));
    assert_eq!(s.bg_blur, Some(20));
    let d = UpdateSettingData { theme: SettingTheme::Light, bg_image: None, bg_blur: Some(21) };
    assert_eq!(update_setting(&mut t, 3, &d).unwrap_err().kind, ErrorKind::ValidationFailed);
    let d = UpdateSettingData { theme: SettingTheme::Light, bg_image: None, bg_blur: Some(-1) };
    assert_eq!(update_setting(&mut t, 3, &d).unwrap_err().kind, ErrorKind::ValidationFailed);
    let d = UpdateSettingData { theme: SettingTheme::Light, bg_image: None, bg_blur: None };
    assert_eq!(update_setting(&mut t, 42, &d).unwrap_err().kind, ErrorKind::Forbidden);
}

#[test]
fn policy_decisions() {
    let t = table();
    let admin = t.get(0);
    let alice = t.get(2);
    assert!(can_manage_users(admin));
    assert!(!can_manage_users(alice));
    assert!(!can_delete_user(admin, admin.id));
    assert!(can_delete_user(admin, alice.id));
    assert!(!can_delete_user(alice, admin.id));
    let mut apps = AppTable::new();
    let d = CreateAppData { url: "https://a.example".to_string(), name: "a".to_string(), description: None, icon: None };
    create_app(&mut apps, alice.id, &d, 0).unwrap();
    assert!(owns_resource(alice, apps.get(0)));
    assert!(!owns_resource(admin, apps.get(0)));
}
