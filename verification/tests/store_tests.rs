use rusty_chat::ids::{ConversationId, MessageId, Timestamp};
use rusty_chat::params::ConversationParameters;
use rusty_chat::state::{Conversation, Home, Message, ModelId, Role, Settings, Version};
use rusty_chat::storage::{StorageKey, Store};

fn conversation(id: u128, message_ids: &[u128]) -> Conversation {
    Conversation {
        id: ConversationId::from_u128(id),
        model_id: Some(ModelId("org/model".to_string())),
        title: Some("A chat".to_string()),
        timestamp_started: Timestamp(10),
        timestamp_last_interaction: Timestamp(20),
        conversation_parameters: ConversationParameters::default(),
        user_message: "draft".to_string(),
        messages: message_ids.iter().map(|m| MessageId::from_u128(*m)).collect(),
    }
}

fn message(id: u128, text: &str) -> Message {
    Message {
        id: MessageId::from_u128(id),
        role: Role::User,
        text: text.to_string(),
        timestamp: Timestamp(5),
    }
}

#[test]
fn round_trip_conversation() {
    let mut store = Store::new();
    let id = ConversationId::from_u128(7);
    let written = conversation(7, &[1, 2]);
    store.set_conversation(id, written.clone());
    assert_eq!(*store.get_conversation(id).unwrap(), written);
}

#[test]
fn round_trip_message() {
    let mut store = Store::new();
    let id = MessageId::from_u128(9);
    let written = message(9, "hello");
    store.set_message(id, written.clone());
    assert_eq!(*store.get_message(id).unwrap(), written);
}

#[test]
fn round_trip_singletons() {
    let mut store = Store::new();
    let settings = Settings::default();
    store.set_settings(settings.clone());
    assert_eq!(*store.get_settings().unwrap(), settings);

    let home = Home {
        selected_model: ModelId("org/model".to_string()),
        conversation_parameters: ConversationParameters::default(),
        user_message: "hi".to_string(),
    };
    store.set_home(home.clone());
    assert_eq!(*store.get_home().unwrap(), home);

    let version = Version { major: 1, minor: 2, patch: 3 };
    store.set_version(version);
    assert_eq!(*store.get_version().unwrap(), version);
}

#[test]
fn overwrite_replaces_value() {
    let mut store = Store::new();
    let id = MessageId::from_u128(3);
    store.set_message(id, message(3, "first"));
    store.set_message(id, message(3, "second"));
    assert_eq!(store.get_message(id).unwrap().text, "second");
}

#[test]
fn absent_reads_are_none() {
    let store = Store::new();
    assert!(store.get_conversation(ConversationId::from_u128(1)).is_none());
    assert!(store.get_message(MessageId::from_u128(1)).is_none());
    assert!(store.get_settings().is_none());
    assert!(store.get_home().is_none());
    assert!(store.get_version().is_none());
}

#[test]
fn index_insert_is_set_like() {
    let mut store = Store::new();
    let a = ConversationId::from_u128(1);
    let b = ConversationId::from_u128(2);
    store.index_insert(a);
    store.index_insert(b);
    store.index_insert(a);
    assert!(store.index_contains(a));
    assert!(store.index_contains(b));
    assert_eq!(store.conversation_index.len(), 2);
}

#[test]
fn idempotent_delete() {
    let mut store = Store::new();
    let kept = ConversationId::from_u128(1);
    store.index_insert(kept);
    store.set_conversation(kept, conversation(1, &[11]));
    store.set_message(MessageId::from_u128(11), message(11, "m"));

    // deleting an id nobody ever stored is a no-op
    store.delete_conversation(ConversationId::from_u128(99));
    assert!(store.index_contains(kept));
    assert!(store.get_conversation(kept).is_some());
    assert!(store.get_message(MessageId::from_u128(11)).is_some());
    assert_eq!(store.conversation_index.len(), 1);
}

#[test]
fn cascade_delete() {
    let mut store = Store::new();
    let id = ConversationId::from_u128(7);
    let other = ConversationId::from_u128(8);
    store.index_insert(id);
    store.index_insert(other);
    store.set_conversation(id, conversation(7, &[71, 72]));
    store.set_conversation(other, conversation(8, &[81]));
    store.set_message(MessageId::from_u128(71), message(71, "a"));
    store.set_message(MessageId::from_u128(72), message(72, "b"));
    store.set_message(MessageId::from_u128(81), message(81, "c"));

    store.delete_conversation(id);

    assert!(!store.index_contains(id));
    assert!(store.get_conversation(id).is_none());
    assert!(store.get_message(MessageId::from_u128(71)).is_none());
    assert!(store.get_message(MessageId::from_u128(72)).is_none());
    // the other conversation is untouched
    assert!(store.index_contains(other));
    assert!(store.get_conversation(other).is_some());
    assert!(store.get_message(MessageId::from_u128(81)).is_some());
}

#[test]
fn clear_all_empties_everything() {
    let mut store = Store::new();
    store.index_insert(ConversationId::from_u128(1));
    store.set_conversation(ConversationId::from_u128(1), conversation(1, &[]));
    store.set_message(MessageId::from_u128(2), message(2, "x"));
    store.set_settings(Settings::default());
    store.clear_all();
    assert!(!store.index_contains(ConversationId::from_u128(1)));
    assert!(store.get_conversation(ConversationId::from_u128(1)).is_none());
    assert!(store.get_message(MessageId::from_u128(2)).is_none());
    assert!(store.get_settings().is_none());
}

#[test]
fn storage_keys_map_to_flat_names() {
    assert_eq!(StorageKey::Version.as_str(), "version");
    assert_eq!(StorageKey::Home.as_str(), "home");
    assert_eq!(StorageKey::Settings.as_str(), "settings");
    assert_eq!(StorageKey::Conversations.as_str(), "conversations");
    let id = 0x123e4567_e89b_12d3_a456_426614174000u128;
    assert_eq!(
        StorageKey::Conversation(ConversationId::from_u128(id)).as_str(),
        "conversation-123e4567-e89b-12d3-a456-426614174000"
    );
    assert_eq!(
        StorageKey::Message(MessageId::from_u128(0)).as_str(),
        "message-00000000-0000-0000-0000-000000000000"
    );
}
