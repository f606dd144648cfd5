use rusty_chat::ids::{MessageId, Timestamp};
use rusty_chat::orchestrator::{first_line, title_prompt, title_request};
use rusty_chat::state::{ChatTemplate, Message, Role};

fn msg(id: u128, role: Role, text: &str) -> Message {
    Message {
        id: MessageId::from_u128(id),
        role,
        text: text.to_string(),
        timestamp: Timestamp(0),
    }
}

#[test]
fn prompt_determinism() {
    let messages = vec![msg(1, Role::User, "Hi"), msg(2, Role::Assistant, "Hello")];
    for template in [ChatTemplate::Plain, ChatTemplate::Instruct, ChatTemplate::ChatML] {
        let a = template.generate_prompt(Some("Be nice"), &messages, Some("Sure"));
        let b = template.generate_prompt(Some("Be nice"), &messages, Some("Sure"));
        assert_eq!(a, b);
    }
}

#[test]
fn golden_chatml() {
    let messages = vec![msg(1, Role::User, "Hi")];
    let prompt = ChatTemplate::ChatML.generate_prompt(Some("Be nice"), &messages, None);
    assert_eq!(
        prompt,
        "<|im_start|>system\nBe nice<|im_end|>\n<|im_start|>user\nHi<|im_end|>\n<|im_start|>assistant\n"
    );
}

#[test]
fn golden_instruct() {
    let messages = vec![msg(1, Role::User, "Hi"), msg(2, Role::Assistant, "Hello")];
    let prompt = ChatTemplate::Instruct.generate_prompt(None, &messages, None);
    assert_eq!(prompt, "[INST] Hi [/INST]\nHello\n");
}

#[test]
fn golden_plain() {
    let messages = vec![msg(1, Role::User, "Hi"), msg(2, Role::Assistant, "Hello")];
    let prompt = ChatTemplate::Plain.generate_prompt(Some("ignored"), &messages, None);
    assert_eq!(prompt, "Hi\nHello\n");
}

#[test]
fn plain_and_instruct_ignore_system_prompt() {
    let messages = vec![msg(1, Role::User, "Hi")];
    let with = ChatTemplate::Plain.generate_prompt(Some("sys"), &messages, None);
    let without = ChatTemplate::Plain.generate_prompt(None, &messages, None);
    assert_eq!(with, without);
    let with = ChatTemplate::Instruct.generate_prompt(Some("sys"), &messages, None);
    let without = ChatTemplate::Instruct.generate_prompt(None, &messages, None);
    assert_eq!(with, without);
}

#[test]
fn start_response_with_is_appended_verbatim() {
    let messages = vec![msg(1, Role::User, "Hi")];
    let prompt = ChatTemplate::ChatML.generate_prompt(None, &messages, Some("Sure thing! "));
    assert_eq!(
        prompt,
        "<|im_start|>user\nHi<|im_end|>\n<|im_start|>assistant\nSure thing! "
    );
    let prompt = ChatTemplate::Plain.generate_prompt(None, &messages, Some("Ok"));
    assert_eq!(prompt, "Hi\nOk");
}

#[test]
fn empty_history() {
    let messages: Vec<Message> = vec![];
    assert_eq!(ChatTemplate::Plain.generate_prompt(None, &messages, None), "");
    assert_eq!(
        ChatTemplate::ChatML.generate_prompt(None, &messages, None),
        "<|im_start|>assistant\n"
    );
}

#[test]
fn supports_system_prompt_only_for_chatml() {
    assert!(ChatTemplate::ChatML.supports_system_prompt());
    assert!(!ChatTemplate::Plain.supports_system_prompt());
    assert!(!ChatTemplate::Instruct.supports_system_prompt());
}

#[test]
fn title_prompt_embeds_message() {
    let prompt = title_prompt("What is Rust?");
    let expected = format!(
        "<|im_start|>system\n\
         Your job is to generate a short descriptive title of a chat conversation \
         between an user and an AI assistant, given the first message from the user.\n\
         Start the title with a fitting emoji. Please respond only with the title and nothing else.\n\
         <|im_end|>\n\
         <|im_start|>user\n\
         Message: Write a short poem about AI.\n\
         <|im_end|>\n\
         <|im_start|>assistant\n\
         \u{2728} A Modern Muse\n\
         <|im_end|>\n\
         <|im_start|>user\n\
         Message: {}\n\
         <|im_end|>\n\
         <|im_start|>assistant\n",
        "What is Rust?"
    );
    assert_eq!(prompt, expected);
}

#[test]
fn title_request_uses_fixed_model_and_budget() {
    let req = title_request("Hi there");
    assert_eq!(req.model_id.0, "NousResearch/Nous-Hermes-2-Mixtral-8x7B-DPO");
    assert_eq!(req.max_new_tokens, 20);
    assert!(!req.stream);
    assert_eq!(req.prompt, title_prompt("Hi there"));
    assert_eq!(req.start_response_with, "");
}

#[test]
fn first_line_takes_text_before_break() {
    assert_eq!(first_line("Title\nrest\nmore"), "Title");
    assert_eq!(first_line("no break"), "no break");
    assert_eq!(first_line("crlf\r\nrest"), "crlf");
    assert_eq!(first_line(""), "");
    assert_eq!(first_line("\nleading"), "");
}
