//! The web tier's form values and session flash messages.
//!
//! The forms are the plain values the HTTP handlers decode; the flash
//! helpers maintain the per-session alert list that the next rendered
//! page drains.

use vstd::prelude::*;

verus! {

/// Login form of the sign-in page.
pub struct LoginForm {
    pub email: String,
    pub password: String,
}

/// Registration form of the sign-up page.
pub struct RegisterForm {
    pub email: String,
    pub password: String,
}

/// Form that creates a recipient group.
pub struct AddGroupForm {
    pub name: String,
}

/// Form that deletes a recipient group.
pub struct DeleteGroupForm {
    pub id: i32,
}

/// Form that puts a recipient into a group or takes it out.
pub struct AssignGroupRecipientForm {
    pub recipient_id: i32,
    pub group_id: i32,
}

/// Form that deletes a campaign.
pub struct DeleteEmailForm {
    pub id: i32,
}

/// Form that creates a recipient.
pub struct AddRecipientForm {
    pub name: String,
    pub email: String,
}

/// Form that deletes a recipient.
pub struct DeleteRecipientForm {
    pub id: i32,
}

/// Form that saves a recipient's name, address, group memberships and
/// custom fields.
pub struct SaveRecipientForm {
    pub id: i32,
    pub name: String,
    pub email: String,
    pub active: bool,
    pub groups: Vec<i32>,
    pub field: Vec<String>,
    pub value: Vec<String>,
}

/// Form that creates a tenant.
pub struct AddHubForm {
    pub hub_name: String,
}

/// Form that activates a tenant for the current user.
pub struct ActivateHubForm {
    pub hub_id: i32,
}

/// Form that deletes a tenant.
pub struct DeleteHubForm {
    pub id: i32,
}

/// One flash message: a severity category and the text shown to the user.
pub struct Alert {
    pub category: String,
    pub message: String,
}

/// Error of the user repository that the persistence layer implements.
pub enum UserRepoError {
    NotFound,
    HashError(String),
    Other(String),
}

/// Severity of a flash message.
#[derive(Clone, Copy, Debug, PartialEq, Eq, Structural)]
pub enum AlertLevel {
    Error,
    Warning,
    Success,
    Info,
    Debug,
}

/// The CSS class a flash severity is rendered with.
pub fn alert_level_to_str(level: &AlertLevel) -> (r: &'static str)
    ensures
        match level {
            AlertLevel::Error => r@ == "danger"@,
            AlertLevel::Warning => r@ == "warning"@,
            AlertLevel::Success => r@ == "success"@,
            _ => r@ == "info"@,
        },
{
    match level {
        AlertLevel::Error => "danger",
        AlertLevel::Warning => "warning",
        AlertLevel::Success => "success",
        _ => "info",
    }
}

/// Appends one flash message to a session's alert list.
pub fn add_flash_message(messages: &mut Vec<Alert>, category: String, message: String)
    ensures
        final(messages)@.len() == old(messages)@.len() + 1,
        final(messages)@.subrange(0, old(messages)@.len() as int) == old(messages)@,
        final(messages)@.last().category@ == category@,
        final(messages)@.last().message@ == message@,
{
    messages.push(Alert { category, message });
    proof {
        assert(final(messages)@.subrange(0, old(messages)@.len() as int) =~= old(messages)@);
    }
}

/// Takes all flash messages out of a session's alert list: the caller
/// renders them once, and the list is left empty.
pub fn get_flash_messages(messages: &mut Vec<Alert>) -> (drained: Vec<Alert>)
    ensures
        drained@ == old(messages)@,
        final(messages)@.len() == 0,
{
    let mut drained: Vec<Alert> = Vec::new();
    core::mem::swap(messages, &mut drained);
    drained
}

} // verus!
