use redrum_bot::users::{register_user, UserData};

#[test]
fn register_new_user_appends() {
    let mut users: Vec<UserData> = Vec::new();
    assert!(register_user(&mut users, 10, "ann"));
    assert!(register_user(&mut users, 11, "bob"));
    assert_eq!(users.len(), 2);
    assert_eq!(users[1].telegram_id, 11);
    assert_eq!(users[1].first_name, "bob");
}

#[test]
fn register_known_user_changes_nothing() {
    let mut users = vec![UserData { telegram_id: 10, first_name: "ann".to_string() }];
    assert!(!register_user(&mut users, 10, "other name"));
    assert_eq!(users.len(), 1);
    assert_eq!(users[0].first_name, "ann");
    // registering twice is the same as once
    assert!(register_user(&mut users, 12, "cid"));
    assert!(!register_user(&mut users, 12, "cid"));
    assert_eq!(users.len(), 2);
}
