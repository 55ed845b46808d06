use neochat_core::node::{fresh_profile, NodeState};
use neochat_core::{Chat, CoreError, Message, MessageStatus, TransportMode, UserStatus};

fn get_core() -> NodeState {
    NodeState::new(fresh_profile("my-id".to_string()))
}

fn create_chat(core: &mut NodeState, participant: &str, chat_id: &str) -> Chat {
    if let Some(i) = core.find_private_chat(participant) {
        return core.chats[i].clone();
    }
    core.create_private_chat(
        chat_id.to_string(),
        participant.to_string(),
        participant.to_string(),
        None,
        UserStatus::Offline,
    )
}

fn send_message(core: &mut NodeState, chat_id: &str, text: &str, id: usize) -> Result<Message, CoreError> {
    let msg = core.new_outgoing_message(chat_id, text.to_string(), format!("msg-{}", id), 1000 + id as u64)?;
    core.record_sent(msg.clone());
    Ok(msg)
}

#[test]
fn test_core_initialization() {
    let core = get_core();
    let profile = core.get_my_profile();
    assert_eq!(profile.username, "New User");
    assert!(!profile.is_registered);
}

#[test]
fn test_core_integration() {
    let core = get_core();
    assert_eq!(core.get_my_profile().username, "New User");
    assert!(core.get_chats().is_empty());
}

#[test]
fn test_chat_creation() {
    let mut core = get_core();
    let chat = create_chat(&mut core, "some_friend", "c1");
    assert_eq!(chat.participants.len(), 2);
    assert!(chat.participants.contains(&"some_friend".to_string()));
    let chats = core.get_chats();
    assert_eq!(chats.len(), 1);
    // The participant became a contact, and a second call finds the chat.
    assert_eq!(core.get_contacts().len(), 1);
    let again = create_chat(&mut core, "some_friend", "c2");
    assert_eq!(again.id, "c1");
    assert_eq!(core.get_chats().len(), 1);
}

#[test]
fn test_messaging() {
    let mut core = get_core();
    let chat = create_chat(&mut core, "friend", "c1");
    let msg = send_message(&mut core, &chat.id, "Hello World", 0).unwrap();
    assert_eq!(msg.text, "Hello World");
    assert_eq!(msg.status, MessageStatus::Sent);
    let messages = core.get_messages(&chat.id, 10, 0);
    assert_eq!(messages.len(), 1);
    assert_eq!(messages[0].text, "Hello World");
    let last = core.get_chats()[0].last_message.clone().unwrap();
    assert_eq!(last.text, "Hello World");
    assert_eq!(last.sender_id, "my-id");
}

#[test]
fn test_group_chat_creation() {
    let mut core = get_core();
    let participants = vec!["p1".to_string(), "p2".to_string()];
    let chat = core.create_group("g1".to_string(), "My Group".to_string(), participants.clone());
    assert_eq!(chat.name, "My Group");
    assert_eq!(chat.participants.len(), 3);
    assert!(chat.participants.contains(&"p1".to_string()));
    assert!(chat.participants.contains(&"p2".to_string()));
}

#[test]
fn test_profile_update() {
    let mut core = get_core();
    core.update_profile("Alice".to_string(), Some("data:image/png;base64,...".to_string()));
    let profile = core.get_my_profile();
    assert_eq!(profile.username, "Alice");
    assert!(profile.avatar_url.is_some());
}

#[test]
fn test_invalid_chat_messaging() {
    let mut core = get_core();
    let result = send_message(&mut core, "non_existent_id", "fail", 0);
    assert!(result.is_err());
    assert_eq!(result.unwrap_err(), CoreError::Internal("Chat not found".to_string()));
}

#[test]
fn test_empty_message_rejection() {
    let mut core = get_core();
    let chat = create_chat(&mut core, "friend", "c1");
    let result = send_message(&mut core, &chat.id, "", 0);
    assert!(result.is_err());
    assert_eq!(
        send_message(&mut core, &chat.id, "  \t", 1).unwrap_err(),
        CoreError::Internal("Empty message".to_string())
    );
}

#[test]
fn test_multiple_messages_ordering() {
    let mut core = get_core();
    let chat = create_chat(&mut core, "friend", "c1");
    send_message(&mut core, &chat.id, "Msg 1", 1).unwrap();
    send_message(&mut core, &chat.id, "Msg 2", 2).unwrap();
    send_message(&mut core, &chat.id, "Msg 3", 3).unwrap();
    let messages = core.get_messages(&chat.id, 10, 0);
    assert_eq!(messages.len(), 3);
    assert_eq!(messages[0].text, "Msg 1");
    assert_eq!(messages[1].text, "Msg 2");
    assert_eq!(messages[2].text, "Msg 3");
}

#[test]
fn test_pagination() {
    let mut core = get_core();
    let chat = create_chat(&mut core, "friend", "c1");
    for i in 0..15 {
        send_message(&mut core, &chat.id, &format!("Msg {:02}", i), i).unwrap();
    }
    let page1 = core.get_messages(&chat.id, 10, 0);
    assert_eq!(page1.len(), 10);
    assert_eq!(page1[0].text, "Msg 00");
    let page2 = core.get_messages(&chat.id, 10, 10);
    assert_eq!(page2.len(), 5);
    assert_eq!(page2[0].text, "Msg 10");
    assert!(core.get_messages(&chat.id, 10, 15).is_empty());
    assert!(core.get_messages("other", 10, 0).is_empty());
    assert_eq!(core.get_messages(&chat.id, u32::MAX, u32::MAX - 1).len(), 0);
}

#[test]
fn register_refuses_blank_name() {
    let mut core = get_core();
    assert_eq!(
        core.register("   ".to_string(), 5).unwrap_err(),
        CoreError::InvalidArgument("Username cannot be empty".to_string())
    );
    let user = core.register("Bob".to_string(), 5).unwrap();
    assert_eq!(user.username, "Bob");
    assert_eq!(user.status, UserStatus::Online);
    assert_eq!(user.last_seen, 5);
    assert!(user.is_registered);
    assert_eq!(user.id, "my-id");
}

#[test]
fn clear_database_resets() {
    let mut core = get_core();
    core.register("Bob".to_string(), 5).unwrap();
    let chat = create_chat(&mut core, "friend", "c1");
    send_message(&mut core, &chat.id, "hi", 0).unwrap();
    core.clear_database();
    assert!(core.get_chats().is_empty());
    assert!(core.get_contacts().is_empty());
    assert!(core.messages.is_empty());
    let p = core.get_my_profile();
    assert_eq!(p.username, "New User");
    assert_eq!(p.id, "my-id");
    assert!(!p.is_registered);
}

#[test]
fn delete_chat_removes_its_messages() {
    let mut core = get_core();
    let a = create_chat(&mut core, "a", "c1");
    let b = create_chat(&mut core, "b", "c2");
    send_message(&mut core, &a.id, "to a", 0).unwrap();
    send_message(&mut core, &b.id, "to b", 1).unwrap();
    core.delete_chat("c1");
    assert_eq!(core.get_chats().len(), 1);
    assert!(core.get_messages("c1", 10, 0).is_empty());
    assert_eq!(core.get_messages("c2", 10, 0).len(), 1);
}

#[test]
fn transport_switch() {
    let mut core = get_core();
    let chat = create_chat(&mut core, "a", "c1");
    assert_eq!(chat.transport, TransportMode::Internet);
    core.set_chat_transport("c1", TransportMode::Sms).unwrap();
    assert_eq!(core.get_chats()[0].transport, TransportMode::Sms);
    let m = send_message(&mut core, "c1", "sms", 0).unwrap();
    assert_eq!(m.transport, TransportMode::Sms);
    assert_eq!(
        core.set_chat_transport("zz", TransportMode::Mesh),
        Err(CoreError::Internal("Chat not found".to_string()))
    );
}

#[test]
fn receive_deduplicates_by_id() {
    let mut core = get_core();
    let msg = Message {
        id: "x1".to_string(),
        chat_id: "c1".to_string(),
        sender_id: "a".to_string(),
        text: "hello".to_string(),
        timestamp: 3,
        status: MessageStatus::Read,
        attachments: vec![],
        transport: TransportMode::Internet,
    };
    assert!(core.receive_message(msg.clone()));
    assert!(!core.receive_message(msg.clone()));
    let mut other_chat = msg.clone();
    other_chat.chat_id = "c2".to_string();
    assert!(core.receive_message(other_chat));
    assert_eq!(core.messages.len(), 2);
}

#[test]
fn mark_as_read_only_listed() {
    let mut core = get_core();
    let chat = create_chat(&mut core, "a", "c1");
    send_message(&mut core, &chat.id, "one", 1).unwrap();
    send_message(&mut core, &chat.id, "two", 2).unwrap();
    core.mark_as_read("c1", &["msg-2".to_string()]);
    let ms = core.get_messages("c1", 10, 0);
    assert_eq!(ms[0].status, MessageStatus::Sent);
    assert_eq!(ms[1].status, MessageStatus::Read);
}

#[test]
fn contacts_and_search() {
    let mut core = get_core();
    core.add_contact("KEY1".to_string(), "Alice Liddell".to_string());
    core.add_contact_with_phone("key2".to_string(), "Bob".to_string(), "+100".to_string());
    core.add_contact("KEY1".to_string(), "Alice".to_string());
    let contacts = core.get_contacts();
    assert_eq!(contacts.len(), 2);
    assert_eq!(contacts[0].name, "Alice");
    assert_eq!(contacts[1].phone_number, Some("+100".to_string()));
    let results = core.search_users("alice");
    assert_eq!(results.len(), 1);
    assert!(results[0].name.contains("Alice"));
    assert_eq!(core.search_users("KEY").len(), 2);
    assert!(core.search_users("carol").is_empty());
}

#[test]
fn register_refuses_unicode_blank_name() {
    let mut core = get_core();
    assert!(core.register("\u{3000}\u{a0}\n".to_string(), 1).is_err());
    assert_eq!(core.register("\u{3000}Zoë\u{a0}".to_string(), 1).unwrap().username, "\u{3000}Zoë\u{a0}");
}
