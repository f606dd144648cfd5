use rusty_chat::ids::{ConversationId, MessageId, Timestamp};
use rusty_chat::orchestrator::{
    apply_complete_response, apply_stream_token, apply_title, begin_generation, classify_model_check,
    finish_generation, reconcile_version, set_conversation_draft, start_conversation,
    submit_user_message, take_home_draft, update_conversation_parameters, Context, Error,
    ModelIdInvalidReason, ModelIdState, Token,
};
use rusty_chat::params::{ConversationParameters, Decimal};
use rusty_chat::state::{
    BuildConfig, ChatTemplate, Home, Model, ModelId, Role, Settings, Version, VersionCheck,
};

fn model(id: &str, template: ChatTemplate, stream: bool) -> Model {
    Model {
        model_id: ModelId(id.to_string()),
        name: None,
        chat_template: template,
        stream,
    }
}

fn context_with_model(template: ChatTemplate, stream: bool) -> Context {
    let mut ctx = Context::new();
    let mut settings = Settings::default();
    settings.insert_model(model("org/model", template, stream));
    ctx.store.set_settings(settings);
    ctx
}

fn started(ctx: &mut Context, conv: u128) -> ConversationId {
    let id = ConversationId::from_u128(conv);
    start_conversation(
        ctx,
        id,
        ModelId("org/model".to_string()),
        ConversationParameters::default(),
        Timestamp(1),
    );
    id
}

#[test]
fn submission_ordering() {
    let mut ctx = context_with_model(ChatTemplate::Plain, true);
    let conversation_id = started(&mut ctx, 500);

    let mut expected = Vec::new();
    for round in 0..3u128 {
        let user_id = MessageId::from_u128(1000 + round);
        let assistant_id = MessageId::from_u128(2000 + round);
        let req = submit_user_message(
            &mut ctx,
            conversation_id,
            format!("message {round}"),
            user_id,
            Timestamp(10 + round as i64),
        )
        .expect("submission should produce a request");
        begin_generation(&mut ctx, conversation_id, &req, assistant_id, Timestamp(11 + round as i64));
        apply_complete_response(&mut ctx, assistant_id, format!("reply {round}"));
        finish_generation(&mut ctx, Ok(()));
        expected.push(user_id);
        expected.push(assistant_id);
    }

    let conversation = ctx.store.get_conversation(conversation_id).unwrap();
    assert_eq!(conversation.messages, expected);
    assert_eq!(conversation.messages.len(), 6);
    assert_eq!(ctx.errors.len(), 0);
    assert!(!ctx.is_loading);
}

#[test]
fn streaming_accumulation() {
    let mut ctx = context_with_model(ChatTemplate::Plain, true);
    let conversation_id = started(&mut ctx, 1);
    let req = submit_user_message(
        &mut ctx,
        conversation_id,
        "Hi".to_string(),
        MessageId::from_u128(10),
        Timestamp(2),
    )
    .unwrap();
    let assistant_id = MessageId::from_u128(11);
    begin_generation(&mut ctx, conversation_id, &req, assistant_id, Timestamp(3));

    for text in ["Hel", "lo", " there"] {
        let token = Token { text: text.to_string(), special: false };
        apply_stream_token(&mut ctx, assistant_id, &token);
    }
    finish_generation(&mut ctx, Ok(()));

    assert_eq!(ctx.store.get_message(assistant_id).unwrap().text, "Hello there");
    assert_eq!(ctx.store.get_message(assistant_id).unwrap().role, Role::Assistant);
}

#[test]
fn special_token_filtering() {
    let mut ctx = context_with_model(ChatTemplate::Plain, true);
    let conversation_id = started(&mut ctx, 1);
    let req = submit_user_message(
        &mut ctx,
        conversation_id,
        "Hi".to_string(),
        MessageId::from_u128(10),
        Timestamp(2),
    )
    .unwrap();
    let assistant_id = MessageId::from_u128(11);
    begin_generation(&mut ctx, conversation_id, &req, assistant_id, Timestamp(3));

    apply_stream_token(&mut ctx, assistant_id, &Token { text: "A".to_string(), special: false });
    apply_stream_token(
        &mut ctx,
        assistant_id,
        &Token { text: "<|ignored|>".to_string(), special: true },
    );
    apply_stream_token(&mut ctx, assistant_id, &Token { text: "B".to_string(), special: false });

    assert_eq!(ctx.store.get_message(assistant_id).unwrap().text, "AB");
}

#[test]
fn error_isolation() {
    let mut ctx = context_with_model(ChatTemplate::Plain, true);
    let conversation_id = started(&mut ctx, 1);
    let req = submit_user_message(
        &mut ctx,
        conversation_id,
        "Hi".to_string(),
        MessageId::from_u128(10),
        Timestamp(2),
    )
    .unwrap();
    begin_generation(&mut ctx, conversation_id, &req, MessageId::from_u128(11), Timestamp(3));
    assert!(ctx.is_loading);

    let before = ctx.errors.len();
    finish_generation(
        &mut ctx,
        Err(Error::Backend {
            message: "rate limited".to_string(),
            trace: vec!["429 Too Many Requests".to_string()],
        }),
    );

    assert!(!ctx.is_loading);
    assert_eq!(ctx.errors.len(), before + 1);
    let report = ctx.errors.get(before);
    assert_eq!(report.message, "rate limited");
    assert_eq!(report.trace, vec!["429 Too Many Requests".to_string()]);
}

#[test]
fn missing_model_id_precondition() {
    let mut ctx = Context::new();
    let conversation_id = ConversationId::from_u128(4);
    start_conversation(
        &mut ctx,
        conversation_id,
        ModelId("org/model".to_string()),
        ConversationParameters::default(),
        Timestamp(1),
    );
    // unset the model id through the repository
    let mut conversation = ctx.store.get_conversation(conversation_id).unwrap().clone();
    conversation.model_id = None;
    ctx.store.set_conversation(conversation_id, conversation);

    let user_id = MessageId::from_u128(10);
    let r = submit_user_message(&mut ctx, conversation_id, "Hi".to_string(), user_id, Timestamp(2));

    assert!(r.is_none());
    assert_eq!(ctx.errors.len(), 1);
    assert_eq!(ctx.errors.get(0).message, "Model ID not set");
    // the user message entity exists, but nothing was written on the
    // assistant side: the conversation still lists no message at all
    assert!(ctx.store.get_message(user_id).is_some());
    let conversation = ctx.store.get_conversation(conversation_id).unwrap();
    assert!(conversation.messages.is_empty());
    assert!(!ctx.is_loading);
}

#[test]
fn conversation_not_found_is_reported() {
    let mut ctx = Context::new();
    let ghost_id = ConversationId::from_u128(0xabcdef);
    let r = submit_user_message(
        &mut ctx,
        ghost_id,
        "Hi".to_string(),
        MessageId::from_u128(1),
        Timestamp(2),
    );
    assert!(r.is_none());
    assert_eq!(ctx.errors.len(), 1);
    assert_eq!(
        ctx.errors.get(0).message,
        "Conversation not found: 00000000-0000-0000-0000-000000abcdef"
    );
}

#[test]
fn blank_submission_is_a_no_op() {
    let mut ctx = context_with_model(ChatTemplate::Plain, true);
    let conversation_id = started(&mut ctx, 1);
    let r = submit_user_message(
        &mut ctx,
        conversation_id,
        "  \t\r\n".to_string(),
        MessageId::from_u128(10),
        Timestamp(2),
    );
    assert!(r.is_none());
    assert_eq!(ctx.errors.len(), 0);
    assert!(ctx.store.get_message(MessageId::from_u128(10)).is_none());
    assert!(ctx.store.get_conversation(conversation_id).unwrap().messages.is_empty());
}

#[test]
fn request_defaults_for_streaming_model() {
    let mut ctx = context_with_model(ChatTemplate::ChatML, true);
    let conversation_id = started(&mut ctx, 1);
    let req = submit_user_message(
        &mut ctx,
        conversation_id,
        "Hi".to_string(),
        MessageId::from_u128(10),
        Timestamp(2),
    )
    .unwrap();
    assert_eq!(req.max_new_tokens, 2000);
    assert_eq!(req.temperature, Decimal { mantissa: 1, scale: 0 });
    assert_eq!(req.top_k, None);
    assert_eq!(req.top_p, None);
    assert_eq!(req.repetition_penalty, None);
    assert!(req.stream);
    assert_eq!(req.model_id.0, "org/model");
    // the prompt is the ChatML rendering of the single user message
    assert_eq!(req.prompt, "<|im_start|>user\nHi<|im_end|>\n<|im_start|>assistant\n");
}

#[test]
fn request_defaults_for_non_streaming_model() {
    let mut ctx = context_with_model(ChatTemplate::Instruct, false);
    let conversation_id = started(&mut ctx, 1);
    let req = submit_user_message(
        &mut ctx,
        conversation_id,
        "Hi".to_string(),
        MessageId::from_u128(10),
        Timestamp(2),
    )
    .unwrap();
    assert_eq!(req.max_new_tokens, 250);
    assert!(!req.stream);
    assert_eq!(req.prompt, "[INST] Hi [/INST]\n");
}

#[test]
fn explicit_parameters_pass_through() {
    let mut ctx = context_with_model(ChatTemplate::Plain, true);
    let conversation_id = ConversationId::from_u128(1);
    let params = ConversationParameters {
        system_prompt: None,
        start_response_with: Some("Gladly: ".to_string()),
        token_limit: Some(64),
        temperature: Some(Decimal { mantissa: 7, scale: 1 }),
        top_k: Some(40),
        top_p: Some(Decimal { mantissa: 95, scale: 2 }),
        repetition_penalty: Some(Decimal { mantissa: 11, scale: 1 }),
    };
    start_conversation(
        &mut ctx,
        conversation_id,
        ModelId("org/model".to_string()),
        params,
        Timestamp(1),
    );
    let req = submit_user_message(
        &mut ctx,
        conversation_id,
        "Hi".to_string(),
        MessageId::from_u128(10),
        Timestamp(2),
    )
    .unwrap();
    assert_eq!(req.max_new_tokens, 64);
    assert_eq!(req.temperature, Decimal { mantissa: 7, scale: 1 });
    assert_eq!(req.top_k, Some(40));
    assert_eq!(req.top_p, Some(Decimal { mantissa: 95, scale: 2 }));
    assert_eq!(req.repetition_penalty, Some(Decimal { mantissa: 11, scale: 1 }));
    assert_eq!(req.start_response_with, "Gladly: ");
    // the seed is appended to the prompt and pre-seeds the assistant bubble
    assert_eq!(req.prompt, "Hi\nGladly: ");
    let assistant_id = MessageId::from_u128(11);
    begin_generation(&mut ctx, conversation_id, &req, assistant_id, Timestamp(3));
    assert_eq!(ctx.store.get_message(assistant_id).unwrap().text, "Gladly: ");
}

#[test]
fn stream_token_after_delete_is_tolerated() {
    let mut ctx = context_with_model(ChatTemplate::Plain, true);
    let conversation_id = started(&mut ctx, 1);
    let req = submit_user_message(
        &mut ctx,
        conversation_id,
        "Hi".to_string(),
        MessageId::from_u128(10),
        Timestamp(2),
    )
    .unwrap();
    let assistant_id = MessageId::from_u128(11);
    begin_generation(&mut ctx, conversation_id, &req, assistant_id, Timestamp(3));
    ctx.store.delete_conversation(conversation_id);
    // the task outlives its conversation: writes are dropped quietly
    apply_stream_token(&mut ctx, assistant_id, &Token { text: "x".to_string(), special: false });
    apply_complete_response(&mut ctx, assistant_id, "y".to_string());
    apply_title(&mut ctx, conversation_id, "title".to_string());
    finish_generation(&mut ctx, Ok(()));
    assert!(ctx.store.get_message(assistant_id).is_none());
    assert!(ctx.store.get_conversation(conversation_id).is_none());
}

#[test]
fn apply_title_sets_title() {
    let mut ctx = context_with_model(ChatTemplate::Plain, true);
    let conversation_id = started(&mut ctx, 1);
    apply_title(&mut ctx, conversation_id, "\u{2728} A chat".to_string());
    assert_eq!(
        ctx.store.get_conversation(conversation_id).unwrap().title,
        Some("\u{2728} A chat".to_string())
    );
}

#[test]
fn conversation_edits() {
    let mut ctx = context_with_model(ChatTemplate::Plain, true);
    let conversation_id = started(&mut ctx, 1);
    set_conversation_draft(&mut ctx, conversation_id, "half-typed".to_string());
    let mut params = ConversationParameters::default();
    params.top_k = Some(5);
    update_conversation_parameters(&mut ctx, conversation_id, params.clone());
    let c = ctx.store.get_conversation(conversation_id).unwrap();
    assert_eq!(c.user_message, "half-typed");
    assert_eq!(c.conversation_parameters, params);
}

#[test]
fn take_home_draft_clears_text() {
    let config = BuildConfig {
        examples: vec!["Write a poem".to_string()],
        default_model: ModelId("org/default".to_string()),
        models: vec![],
    };
    let mut ctx = Context::new();
    // without a stored draft, the initial one is used
    let (text, params) = take_home_draft(&mut ctx, &config);
    assert_eq!(text, "");
    assert_eq!(params, ConversationParameters::default());
    assert_eq!(ctx.store.get_home().unwrap().selected_model.0, "org/default");

    let home = Home {
        selected_model: ModelId("org/chosen".to_string()),
        conversation_parameters: ConversationParameters::default(),
        user_message: "Hello there".to_string(),
    };
    ctx.store.set_home(home);
    let (text, _) = take_home_draft(&mut ctx, &config);
    assert_eq!(text, "Hello there");
    let after = ctx.store.get_home().unwrap();
    assert_eq!(after.user_message, "");
    assert_eq!(after.selected_model.0, "org/chosen");
}

#[test]
fn version_reconciliation() {
    let v = |a, b, c| Version { major: a, minor: b, patch: c };
    let mut ctx = Context::new();
    assert_eq!(reconcile_version(&mut ctx, v(1, 2, 3)), VersionCheck::Fresh);
    assert_eq!(*ctx.store.get_version().unwrap(), v(1, 2, 3));
    assert_eq!(reconcile_version(&mut ctx, v(1, 2, 3)), VersionCheck::Match);
    assert_eq!(reconcile_version(&mut ctx, v(2, 0, 0)), VersionCheck::StorageOlder);
    assert_eq!(reconcile_version(&mut ctx, v(1, 0, 9)), VersionCheck::StorageNewer);
}

#[test]
fn model_check_classification() {
    assert_eq!(classify_model_check(true, true, false, false), ModelIdState::Valid);
    assert_eq!(classify_model_check(false, true, true, true), ModelIdState::Invalid(ModelIdInvalidReason::AlreadyExists));
    assert_eq!(classify_model_check(false, false, false, true), ModelIdState::Invalid(ModelIdInvalidReason::NotLoadable));
    assert_eq!(classify_model_check(false, false, true, true), ModelIdState::Valid);
    assert_eq!(
        classify_model_check(false, false, true, false),
        ModelIdState::Invalid(ModelIdInvalidReason::InferenceFailed)
    );
}

#[test]
fn model_id_state_validity() {
    assert!(ModelIdState::Checking.is_valid_model_id());
    assert!(ModelIdState::Valid.is_valid_model_id());
    assert!(ModelIdState::Invalid(ModelIdInvalidReason::AlreadyExists).is_valid_model_id());
    assert!(ModelIdState::Invalid(ModelIdInvalidReason::NotLoadable).is_valid_model_id());
    assert!(ModelIdState::Invalid(ModelIdInvalidReason::InferenceFailed).is_valid_model_id());
    assert!(!ModelIdState::Invalid(ModelIdInvalidReason::Empty).is_valid_model_id());
    assert!(!ModelIdState::Invalid(ModelIdInvalidReason::NotFound).is_valid_model_id());
    assert_eq!(ModelIdState::default(), ModelIdState::Invalid(ModelIdInvalidReason::Empty));
}

#[test]
fn sidebar_lists_conversations_newest_first() {
    let mut ctx = context_with_model(ChatTemplate::Plain, true);
    let a = ConversationId::from_u128(1);
    let b = ConversationId::from_u128(2);
    let c = ConversationId::from_u128(3);
    for (id, ts) in [(a, 5), (b, 9), (c, 1)] {
        start_conversation(
            &mut ctx,
            id,
            ModelId("org/model".to_string()),
            ConversationParameters::default(),
            Timestamp(ts),
        );
    }
    // a dangling index entry is skipped rather than rendered
    ctx.store.index_insert(ConversationId::from_u128(99));

    let sorted = rusty_chat::orchestrator::sorted_conversations(&ctx);
    assert_eq!(sorted, vec![b, a, c]);
}

#[test]
fn batch_stream_application() {
    let mut ctx = context_with_model(ChatTemplate::Plain, true);
    let conversation_id = started(&mut ctx, 1);
    let req = submit_user_message(
        &mut ctx,
        conversation_id,
        "Hi".to_string(),
        MessageId::from_u128(10),
        Timestamp(2),
    )
    .unwrap();
    let assistant_id = MessageId::from_u128(11);
    begin_generation(&mut ctx, conversation_id, &req, assistant_id, Timestamp(3));

    let tokens = vec![
        Token { text: "Hel".to_string(), special: false },
        Token { text: "<|meta|>".to_string(), special: true },
        Token { text: "lo".to_string(), special: false },
        Token { text: " there".to_string(), special: false },
    ];
    rusty_chat::orchestrator::apply_stream(&mut ctx, assistant_id, &tokens);
    assert_eq!(ctx.store.get_message(assistant_id).unwrap().text, "Hello there");
}
