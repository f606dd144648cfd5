use rusty_chat::errors::Errors;
use rusty_chat::ids::{ConversationId, MessageId, Timestamp};
use rusty_chat::params::{
    apply_decimal_edit, apply_usize_edit, parse_decimal, parse_usize, ConversationParameters,
    Decimal,
};
use rusty_chat::state::{
    default_model, BuildConfig, ChatTemplate, HfTokenState, Model, ModelId, Settings,
};
use rusty_chat::utils::{non_empty, str_is_blank, str_lt};

#[test]
fn parse_usize_accepts_digit_strings() {
    assert_eq!(parse_usize("0"), Some(0));
    assert_eq!(parse_usize("123"), Some(123));
    assert_eq!(parse_usize("007"), Some(7));
    assert_eq!(parse_usize(""), None);
    assert_eq!(parse_usize("12a"), None);
    assert_eq!(parse_usize("+5"), None);
    assert_eq!(parse_usize("-5"), None);
    assert_eq!(parse_usize("1.5"), None);
    assert_eq!(parse_usize("99999999999999999999999999999999"), None);
}

#[test]
fn parse_decimal_accepts_decimal_literals() {
    assert_eq!(parse_decimal("1.5"), Some(Decimal { mantissa: 15, scale: 1 }));
    assert_eq!(parse_decimal("0.7"), Some(Decimal { mantissa: 7, scale: 1 }));
    assert_eq!(parse_decimal("7"), Some(Decimal { mantissa: 7, scale: 0 }));
    assert_eq!(parse_decimal("7."), Some(Decimal { mantissa: 7, scale: 0 }));
    assert_eq!(parse_decimal(".7"), Some(Decimal { mantissa: 7, scale: 1 }));
    assert_eq!(parse_decimal("0.95"), Some(Decimal { mantissa: 95, scale: 2 }));
    assert_eq!(parse_decimal(""), None);
    assert_eq!(parse_decimal("."), None);
    assert_eq!(parse_decimal("1.2.3"), None);
    assert_eq!(parse_decimal("-1"), None);
    assert_eq!(parse_decimal("1e5"), None);
    assert_eq!(parse_decimal("99999999999999999999999999999999"), None);
}

#[test]
fn invalid_edit_keeps_previous_value() {
    // an invalid entry flags the field and retains the previous value
    assert_eq!(apply_usize_edit(Some(64), "abc"), (Some(64), false));
    assert_eq!(apply_decimal_edit(Some(Decimal { mantissa: 7, scale: 1 }), "x"), (
        Some(Decimal { mantissa: 7, scale: 1 }),
        false,
    ));
    // an empty entry clears the field
    assert_eq!(apply_usize_edit(Some(64), ""), (None, true));
    assert_eq!(apply_decimal_edit(Some(Decimal { mantissa: 7, scale: 1 }), ""), (None, true));
    // a valid entry replaces it
    assert_eq!(apply_usize_edit(Some(64), "128"), (Some(128), true));
    assert_eq!(apply_decimal_edit(None, "0.9"), (
        Some(Decimal { mantissa: 9, scale: 1 }),
        true,
    ));
}

#[test]
fn hf_token_states() {
    assert_eq!(HfTokenState::new(&None), HfTokenState::Unset);
    assert_eq!(HfTokenState::new(&Some("hf_abc".to_string())), HfTokenState::Valid);
    assert_eq!(HfTokenState::new(&Some("hf_".to_string())), HfTokenState::Invalid);
    assert_eq!(HfTokenState::new(&Some("token".to_string())), HfTokenState::Invalid);
}

#[test]
fn settings_catalog_operations() {
    let mut settings = Settings::default();
    assert!(settings.models.is_empty());

    let a = Model {
        model_id: ModelId("org/a".to_string()),
        name: Some("Model A".to_string()),
        chat_template: ChatTemplate::ChatML,
        stream: true,
    };
    let b = Model {
        model_id: ModelId("org/b".to_string()),
        name: None,
        chat_template: ChatTemplate::Plain,
        stream: false,
    };
    settings.insert_model(a.clone());
    settings.insert_model(b.clone());
    assert_eq!(settings.models.len(), 2);
    assert_eq!(settings.get_model(&ModelId("org/a".to_string())), Some(&a));

    // replacing under the same id keeps the catalog at two entries
    let a2 = Model { stream: false, ..a.clone() };
    settings.insert_model(a2.clone());
    assert_eq!(settings.models.len(), 2);
    assert_eq!(settings.get_model(&ModelId("org/a".to_string())), Some(&a2));

    assert_eq!(settings.remove_model(&ModelId("org/a".to_string())), Some(a2));
    assert_eq!(settings.get_model(&ModelId("org/a".to_string())), None);
    assert_eq!(settings.remove_model(&ModelId("org/a".to_string())), None);
}

#[test]
fn reset_models_fills_catalog_from_config() {
    let config = BuildConfig {
        examples: vec![],
        default_model: ModelId("org/a".to_string()),
        models: vec![
            Model {
                model_id: ModelId("org/a".to_string()),
                name: None,
                chat_template: ChatTemplate::ChatML,
                stream: true,
            },
            Model {
                model_id: ModelId("org/b".to_string()),
                name: None,
                chat_template: ChatTemplate::Plain,
                stream: false,
            },
        ],
    };
    let mut settings = Settings { models: vec![], debug_mode: true, hf_token: None };
    settings.reset_models(&config);
    assert_eq!(settings.models.len(), 2);
    assert!(settings.get_model(&ModelId("org/a".to_string())).is_some());
    assert!(settings.get_model(&ModelId("org/b".to_string())).is_some());
    assert!(settings.debug_mode);
    assert_eq!(default_model(&config), ModelId("org/a".to_string()));
}

#[test]
fn display_name_falls_back_to_id() {
    let named = Model {
        model_id: ModelId("org/a".to_string()),
        name: Some("Friendly".to_string()),
        chat_template: ChatTemplate::Plain,
        stream: false,
    };
    let anonymous = Model { name: None, ..named.clone() };
    assert_eq!(named.display_name(), "Friendly");
    assert_eq!(anonymous.display_name(), "org/a");
}

#[test]
fn model_id_url_and_order() {
    let id = ModelId("org/model".to_string());
    assert_eq!(id.url(), "https://huggingface.co/org/model");
    assert!(ModelId("org/a".to_string()).lt(&ModelId("org/b".to_string())));
    assert!(!ModelId("org/b".to_string()).lt(&ModelId("org/a".to_string())));
    assert!(ModelId("org".to_string()).lt(&ModelId("org/a".to_string())));
    assert!(!ModelId("org/a".to_string()).lt(&ModelId("org/a".to_string())));
    assert!(str_lt("abc", "abd"));
    assert!(!str_lt("", ""));
}

#[test]
fn blank_and_empty_helpers() {
    assert!(str_is_blank(""));
    assert!(str_is_blank(" \t\r\n"));
    assert!(!str_is_blank(" a "));
    assert_eq!(non_empty(String::new()), None);
    assert_eq!(non_empty("x".to_string()), Some("x".to_string()));
}

#[test]
fn default_parameters_are_unset() {
    let p = ConversationParameters::default();
    assert_eq!(p.system_prompt, None);
    assert_eq!(p.start_response_with, None);
    assert_eq!(p.token_limit, None);
    assert_eq!(p.temperature, None);
    assert_eq!(p.top_k, None);
    assert_eq!(p.top_p, None);
    assert_eq!(p.repetition_penalty, None);
    assert_eq!(Decimal::one(), Decimal { mantissa: 1, scale: 0 });
}

#[test]
fn fresh_ids_carry_the_random_version_bits() {
    // the id generator masks in the version-4 and RFC 4122 variant bits
    let c = ConversationId::new().0;
    assert_eq!((c >> 76) & 0xf, 4);
    assert_eq!((c >> 62) & 0x3, 2);
    let m = MessageId::new().0;
    assert_eq!((m >> 76) & 0xf, 4);
    assert_eq!((m >> 62) & 0x3, 2);
    // the clock reading is monotone enough to be a plausible epoch instant
    let t = Timestamp::now();
    assert!(t.0 > 0);
}

#[test]
fn error_reports_are_ordered_and_dismissable() {
    let mut errors = Errors::new();
    errors.push("first".to_string(), vec![]);
    errors.push("second".to_string(), vec!["cause".to_string()]);
    assert_eq!(errors.len(), 2);
    assert_eq!(errors.get(0).message, "first");
    assert_eq!(errors.get(1).message, "second");
    assert_eq!(errors.get(1).trace, vec!["cause".to_string()]);

    let first_id = errors.get(0).id;
    errors.dismiss(first_id);
    assert_eq!(errors.len(), 1);
    assert_eq!(errors.get(0).message, "second");

    errors.clear();
    assert_eq!(errors.len(), 0);
}
