//! Implicit session keys.

use brightstaff::affinity::{derive_implicit_affinity, estimate_prefix_tokens};
use brightstaff::chat::{Message, MessageContent, Role};

fn msg(role: Role, text: &str) -> Message {
    Message {
        role,
        content: Some(MessageContent::Text(text.to_string())),
        name: None,
        tool_call_id: None,
        tool_calls: None,
    }
}

#[test]
fn key_is_stable_as_history_grows() {
    let turn1 = vec![
        msg(Role::System, "You are a coding agent."),
        msg(Role::User, "Fix the bug in main.rs"),
    ];
    let turn5 = vec![
        msg(Role::System, "You are a coding agent."),
        msg(Role::User, "Fix the bug in main.rs"),
        msg(Role::Assistant, "Done. Anything else?"),
        msg(Role::User, "Now add tests"),
        msg(Role::Assistant, "Added."),
    ];

    let a1 = derive_implicit_affinity(&turn1, None, None).unwrap();
    let a5 = derive_implicit_affinity(&turn5, None, None).unwrap();
    assert_eq!(a1.session_key, a5.session_key);
    assert_eq!(a1.prefix_hash, a5.prefix_hash);
    assert!(a1.session_key.starts_with("implicit:"));
}

#[test]
fn different_first_user_message_yields_different_session() {
    let base = || msg(Role::System, "You are a coding agent.");
    let a = derive_implicit_affinity(
        &[base(), msg(Role::User, "conversation A")],
        None,
        None,
    )
    .unwrap();
    let b = derive_implicit_affinity(&[base(), msg(Role::User, "conversation B")], None, None)
        .unwrap();
    // Same stable prefix, different conversations.
    assert_eq!(a.prefix_hash, b.prefix_hash);
    assert_ne!(a.session_key, b.session_key);
}

#[test]
fn changed_system_prompt_changes_prefix_hash() {
    let a = derive_implicit_affinity(
        &[msg(Role::System, "v1 prompt"), msg(Role::User, "hi")],
        None,
        None,
    )
    .unwrap();
    let b = derive_implicit_affinity(
        &[msg(Role::System, "v2 prompt"), msg(Role::User, "hi")],
        None,
        None,
    )
    .unwrap();
    assert_ne!(a.prefix_hash, b.prefix_hash);
    assert_ne!(a.session_key, b.session_key);
}

#[test]
fn tools_and_tenant_are_part_of_the_key() {
    let messages = [msg(Role::System, "s"), msg(Role::User, "u")];
    let plain = derive_implicit_affinity(&messages, None, None).unwrap();
    let with_tools =
        derive_implicit_affinity(&messages, Some(&["get_weather".to_string()]), None).unwrap();
    let with_tenant = derive_implicit_affinity(&messages, None, Some("acme")).unwrap();
    assert_ne!(plain.session_key, with_tools.session_key);
    assert_ne!(plain.session_key, with_tenant.session_key);
}

#[test]
fn no_user_message_yields_none() {
    assert!(derive_implicit_affinity(&[msg(Role::System, "s")], None, None).is_none());
    assert!(derive_implicit_affinity(&[], None, None).is_none());
}

#[test]
fn prefix_token_estimate_excludes_final_turn() {
    let messages = [
        msg(Role::System, &"x".repeat(4000)),
        msg(Role::User, &"y".repeat(400)),
        msg(Role::User, "new turn"),
    ];
    assert_eq!(estimate_prefix_tokens(&messages), 1100);
    assert_eq!(estimate_prefix_tokens(&[]), 0);
}
