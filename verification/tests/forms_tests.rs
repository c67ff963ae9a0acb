use pushkind_emailer::forms::{
    add_flash_message, alert_level_to_str, get_flash_messages, AddRecipientForm, Alert,
    AlertLevel, LoginForm, UserRepoError,
};

#[test]
fn flash_messages_drain_in_order() {
    let mut session: Vec<Alert> = Vec::new();
    add_flash_message(&mut session, "success".to_string(), "first".to_string());
    add_flash_message(&mut session, "danger".to_string(), "second".to_string());
    assert_eq!(session.len(), 2);
    let drained = get_flash_messages(&mut session);
    assert!(session.is_empty());
    assert_eq!(drained.len(), 2);
    assert_eq!(drained[0].category, "success");
    assert_eq!(drained[0].message, "first");
    assert_eq!(drained[1].category, "danger");
    assert_eq!(drained[1].message, "second");
    assert!(get_flash_messages(&mut session).is_empty());
}

#[test]
fn alert_levels_map_to_css_classes() {
    assert_eq!(alert_level_to_str(&AlertLevel::Error), "danger");
    assert_eq!(alert_level_to_str(&AlertLevel::Warning), "warning");
    assert_eq!(alert_level_to_str(&AlertLevel::Success), "success");
    assert_eq!(alert_level_to_str(&AlertLevel::Info), "info");
    assert_eq!(alert_level_to_str(&AlertLevel::Debug), "info");
}

#[test]
fn forms_carry_plain_values() {
    let login = LoginForm { email: "a@b.c".to_string(), password: "p".to_string() };
    assert_eq!(login.email, "a@b.c");
    let add = AddRecipientForm { name: "N".to_string(), email: "a@b.c".to_string() };
    assert_eq!(add.name, "N");
    let err = UserRepoError::HashError("cost".to_string());
    assert!(matches!(err, UserRepoError::HashError(m) if m == "cost"));
}
