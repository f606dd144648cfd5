use vstd::prelude::*;

use vstd::pervasive::unreached;

use crate::errors::Errors;
use crate::ids::{uuid_chars, uuid_string, ConversationId, MessageId, Timestamp};
use crate::params::{ConversationParameters, Decimal};
use crate::prompt::{opt_view, prompt_spec};
use crate::state::{
    has_model, spec_model_of, version_lt, BuildConfig, Conversation, Home, Message, Model, ModelId,
    Role, Version, VersionCheck,
};
use crate::state::lemma_model_of;
use crate::storage::{spec_get, Store};
use crate::utils::{is_blank, str_is_blank};

verus! {

/// Token budget handed to a streaming model when none is configured.
pub const DEFAULT_TOKEN_LIMIT_STREAMING: usize = 2000;

/// Token budget handed to a non-streaming model when none is configured:
/// smaller, since the whole response is paid for in one shot.
pub const DEFAULT_TOKEN_LIMIT_COMPLETE: usize = 250;

/// The services every operation works against: the persistent store, the
/// single busy flag, and the error reports.
#[derive(Debug)]
pub struct Context {
    pub store: Store,
    pub is_loading: bool,
    pub errors: Errors,
}

impl Context {
    /// The store is well-formed, and so are the settings it may hold.
    pub open spec fn wf(&self) -> bool {
        &&& self.store.wf()
        &&& match self.store.settings {
            Some(s) => s.wf(),
            None => true,
        }
    }

    /// A fresh context over an empty store.
    pub fn new() -> (r: Context)
        ensures
            r.wf(),
            r.is_loading == false,
            r.errors@ == Seq::<crate::errors::ErrorMessage>::empty(),
            r.store.version is None,
            r.store.settings is None,
            r.store.home is None,
            r.store.conversation_index@ == Seq::<ConversationId>::empty(),
            r.store.conversations@ == Seq::<(u128, Conversation)>::empty(),
            r.store.messages@ == Seq::<(u128, Message)>::empty(),
    {
        Context { store: Store::new(), is_loading: false, errors: Errors::new() }
    }
}

/// The headline text of a missing-conversation report.
pub open spec fn not_found_chars(id: ConversationId) -> Seq<char> {
    "Conversation not found: "@ + uuid_chars(id.0)
}

/// The headline text of a missing-model-id report.
pub open spec fn model_not_set_chars() -> Seq<char> {
    "Model ID not set"@
}

/// What can go wrong while a submission is orchestrated.
#[derive(Debug)]
pub enum Error {
    /// The generation backend failed; its own text and cause chain.
    Backend { message: String, trace: Vec<String> },
    /// The submission named a conversation the store does not hold.
    ConversationNotFound(ConversationId),
    /// The conversation has no model to talk to.
    ModelIdNotSet,
}

impl Error {
    /// The headline text a report of this error carries.
    pub open spec fn spec_message(&self) -> Seq<char> {
        match self {
            Error::Backend { message, .. } => message@,
            Error::ConversationNotFound(id) => not_found_chars(*id),
            Error::ModelIdNotSet => model_not_set_chars(),
        }
    }

    /// The cause chain a report of this error carries.
    pub open spec fn spec_trace(&self) -> Seq<String> {
        match self {
            Error::Backend { trace, .. } => trace@,
            Error::ConversationNotFound(_) => Seq::<String>::empty(),
            Error::ModelIdNotSet => Seq::<String>::empty(),
        }
    }

    /// Renders the headline text.
    pub fn message(&self) -> (r: String)
        ensures
            r@ == self.spec_message(),
    {
        match self {
            Error::Backend { message, .. } => message.clone(),
            Error::ConversationNotFound(id) => {
                let mut s = "Conversation not found: ".to_owned();
                let tail = uuid_string(id.0);
                s.append(tail.as_str());
                s
            }
            Error::ModelIdNotSet => "Model ID not set".to_owned(),
        }
    }

    /// Renders the cause chain.
    pub fn trace(&self) -> (r: Vec<String>)
        ensures
            r@ == self.spec_trace(),
    {
        match self {
            Error::Backend { trace, .. } => {
                let t = trace.clone();
                proof {
                    assert(t@ =~= trace@);
                }
                t
            }
            Error::ConversationNotFound(_) => Vec::new(),
            Error::ModelIdNotSet => Vec::new(),
        }
    }
}

/// Appends one report for the error: its text plus its cause chain, under a
/// fresh id, leaving every earlier report in place.
pub fn report_error(errors: &mut Errors, error: &Error)
    ensures
        final(errors)@.len() == old(errors)@.len() + 1,
        forall|i: int| 0 <= i < old(errors)@.len() ==> final(errors)@[i] == old(errors)@[i],
        final(errors)@.last().message@ == error.spec_message(),
        final(errors)@.last().trace@ == error.spec_trace(),
{
    let message = error.message();
    let trace = error.trace();
    errors.push(message, trace);
}

/// Everything the generation backend needs for one call.
#[derive(Debug)]
pub struct GenerationRequest {
    pub model_id: ModelId,
    pub prompt: String,
    pub max_new_tokens: usize,
    pub temperature: Decimal,
    pub top_k: Option<usize>,
    pub top_p: Option<Decimal>,
    pub repetition_penalty: Option<Decimal>,
    pub stream: bool,
    pub start_response_with: String,
}

/// The chars of an optional owned string.
pub open spec fn opt_string_view(o: Option<String>) -> Option<Seq<char>> {
    match o {
        Some(s) => Some(s@),
        None => None,
    }
}

/// Borrows an optional owned string as an optional slice.
fn opt_str(o: &Option<String>) -> (r: Option<&str>)
    ensures
        opt_view(r) == opt_string_view(*o),
{
    match o {
        Some(s) => Some(s.as_str()),
        None => None,
    }
}

/// The messages the listed ids resolve to, in list order; ids the store
/// does not hold are skipped.
pub open spec fn resolve_messages(table: Seq<(u128, Message)>, ids: Seq<MessageId>) -> Seq<Message>
    decreases ids.len(),
{
    if ids.len() == 0 {
        Seq::<Message>::empty()
    } else {
        let rest = resolve_messages(table, ids.drop_last());
        match spec_get(table, ids.last().0) {
            Some(m) => rest.push(m),
            None => rest,
        }
    }
}

/// Resolves each listed id against the store, skipping missing ones.
fn resolve_history(store: &Store, ids: &Vec<MessageId>) -> (r: Vec<Message>)
    requires
        store.wf(),
    ensures
        r@ == resolve_messages(store.messages@, ids@),
{
    let n = ids.len();
    let mut out: Vec<Message> = Vec::new();
    let mut i: usize = 0;
    while i < n
        invariant
            i <= n,
            out@ == resolve_messages(store.messages@, ids@.take(i as int)),
        decreases n - i,
    {
        proof {
            assert(ids@.take(i + 1).drop_last() =~= ids@.take(i as int));
            assert(ids@.take(i + 1).last() == ids@[i as int]);
        }
        match store.get_message(ids[i]) {
            Some(m) => {
                out.push(m.clone());
            }
            None => {}
        }
        i = i + 1;
    }
    proof {
        assert(ids@.take(n as int) =~= ids@);
    }
    out
}

/// The user message entity a submission creates.
pub open spec fn spec_user_message(id: MessageId, text: String, now: Timestamp) -> Message {
    Message { id, role: Role::User, text, timestamp: now }
}

/// How a conversation looks after one message id was appended: the id list
/// grew by that id, the last-interaction timestamp moved, everything else
/// stands.
pub open spec fn conversation_appended(
    c1: Conversation,
    c2: Conversation,
    mid: MessageId,
    now: Timestamp,
) -> bool {
    &&& c2.id == c1.id
    &&& c2.model_id == c1.model_id
    &&& c2.title == c1.title
    &&& c2.timestamp_started == c1.timestamp_started
    &&& c2.timestamp_last_interaction == now
    &&& c2.conversation_parameters == c1.conversation_parameters
    &&& c2.user_message == c1.user_message
    &&& c2.messages@ == c1.messages@.push(mid)
}

/// The request a submission hands to the backend: the conversation's
/// parameters where set, the template-appropriate defaults where not.
pub open spec fn request_matches(
    req: GenerationRequest,
    model: Model,
    params: ConversationParameters,
    prompt: Seq<char>,
) -> bool {
    &&& req.model_id.0@ == model.model_id.0@
    &&& req.prompt@ == prompt
    &&& req.max_new_tokens == (match params.token_limit {
        Some(l) => l,
        None => if model.stream {
            DEFAULT_TOKEN_LIMIT_STREAMING
        } else {
            DEFAULT_TOKEN_LIMIT_COMPLETE
        },
    })
    &&& req.temperature == (match params.temperature {
        Some(t) => t,
        None => Decimal { mantissa: 1u64, scale: 0u32 },
    })
    &&& req.top_k == params.top_k
    &&& req.top_p == params.top_p
    &&& req.repetition_penalty == params.repetition_penalty
    &&& req.stream == model.stream
    &&& req.start_response_with@ == match params.start_response_with {
        Some(s) => s@,
        None => Seq::<char>::empty(),
    }
}

/// When the conversation names a model, the stored settings must list it;
/// submissions look the model up and expect settings and catalog to agree.
pub open spec fn model_available(store: Store, conversation_id: ConversationId) -> bool {
    match spec_get(store.conversations@, conversation_id.0) {
        Some(c) => match c.model_id {
            Some(mid) => store.settings is Some && has_model(store.settings->0.models@, mid.0@),
            None => true,
        },
        None => true,
    }
}

/// Submits one user message to a conversation: stores the message entity,
/// appends its id to the conversation, and assembles the generation request
/// from the full resolved history. Blank input is a no-op; a missing
/// conversation or an unset model id is reported and aborts before any
/// request is built.
pub fn submit_user_message(
    ctx: &mut Context,
    conversation_id: ConversationId,
    user_message: String,
    user_message_id: MessageId,
    now: Timestamp,
) -> (r: Option<GenerationRequest>)
    requires
        old(ctx).wf(),
        model_available(old(ctx).store, conversation_id),
    ensures
        final(ctx).wf(),
        final(ctx).store.version == old(ctx).store.version,
        final(ctx).store.settings == old(ctx).store.settings,
        final(ctx).store.home == old(ctx).store.home,
        final(ctx).store.conversation_index@ == old(ctx).store.conversation_index@,
        final(ctx).is_loading == old(ctx).is_loading,
        is_blank(user_message@) ==> {
            &&& r is None
            &&& final(ctx).store.conversations@ == old(ctx).store.conversations@
            &&& final(ctx).store.messages@ == old(ctx).store.messages@
            &&& final(ctx).errors@ == old(ctx).errors@
        },
        !is_blank(user_message@) ==> {
            &&& spec_get(final(ctx).store.messages@, user_message_id.0) == Some(
                spec_user_message(user_message_id, user_message, now),
            )
            &&& forall|k: u128|
                k != user_message_id.0 ==> spec_get(final(ctx).store.messages@, k) == spec_get(
                    old(ctx).store.messages@,
                    k,
                )
        },
        (!is_blank(user_message@) && spec_get(old(ctx).store.conversations@, conversation_id.0)
            is None) ==> {
            &&& r is None
            &&& final(ctx).store.conversations@ == old(ctx).store.conversations@
            &&& final(ctx).errors@.len() == old(ctx).errors@.len() + 1
            &&& forall|i: int|
                0 <= i < old(ctx).errors@.len() ==> final(ctx).errors@[i] == old(ctx).errors@[i]
            &&& final(ctx).errors@.last().message@ == not_found_chars(conversation_id)
            &&& final(ctx).errors@.last().trace@ == Seq::<String>::empty()
        },
        (!is_blank(user_message@) && (match spec_get(
            old(ctx).store.conversations@,
            conversation_id.0,
        ) {
            Some(c1) => c1.model_id is None,
            None => false,
        })) ==> {
            &&& r is None
            &&& final(ctx).store.conversations@ == old(ctx).store.conversations@
            &&& final(ctx).errors@.len() == old(ctx).errors@.len() + 1
            &&& forall|i: int|
                0 <= i < old(ctx).errors@.len() ==> final(ctx).errors@[i] == old(ctx).errors@[i]
            &&& final(ctx).errors@.last().message@ == model_not_set_chars()
            &&& final(ctx).errors@.last().trace@ == Seq::<String>::empty()
        },
        (!is_blank(user_message@) && (match spec_get(
            old(ctx).store.conversations@,
            conversation_id.0,
        ) {
            Some(c1) => c1.model_id is Some,
            None => false,
        })) ==> {
            let c1 = spec_get(old(ctx).store.conversations@, conversation_id.0)->0;
            let model = spec_model_of(old(ctx).store.settings->0.models@, (c1.model_id->0).0@);
            let history = resolve_messages(
                final(ctx).store.messages@,
                c1.messages@.push(user_message_id),
            );
            let prompt = prompt_spec(
                model.chat_template,
                opt_string_view(c1.conversation_parameters.system_prompt),
                history,
                opt_string_view(c1.conversation_parameters.start_response_with),
            );
            &&& final(ctx).errors@ == old(ctx).errors@
            &&& match spec_get(final(ctx).store.conversations@, conversation_id.0) {
                Some(c2) => conversation_appended(c1, c2, user_message_id, now),
                None => false,
            }
            &&& forall|k: u128|
                k != conversation_id.0 ==> spec_get(final(ctx).store.conversations@, k)
                    == spec_get(old(ctx).store.conversations@, k)
            &&& match r {
                Some(req) => request_matches(req, model, c1.conversation_parameters, prompt),
                None => false,
            }
        },
{
    if str_is_blank(user_message.as_str()) {
        return None;
    }
    let text = user_message;
    let message = Message { id: user_message_id, role: Role::User, text, timestamp: now };
    ctx.store.set_message(user_message_id, message);

    let mut conversation = match ctx.store.get_conversation(conversation_id) {
        Some(c) => c.clone(),
        None => {
            report_error(&mut ctx.errors, &Error::ConversationNotFound(conversation_id));
            return None;
        }
    };
    let model_id = match &conversation.model_id {
        Some(m) => m.clone(),
        None => {
            report_error(&mut ctx.errors, &Error::ModelIdNotSet);
            return None;
        }
    };

    conversation.messages.push(user_message_id);
    conversation.timestamp_last_interaction = now;

    let history = resolve_history(&ctx.store, &conversation.messages);

    let settings = match ctx.store.get_settings() {
        Some(s) => s,
        None => unreached(),
    };
    let model = match settings.get_model(&model_id) {
        Some(m) => m,
        None => unreached(),
    };
    proof {
        lemma_model_of(settings.models@, *model);
    }
    let chat_template = model.chat_template;
    let stream = model.stream;

    let prompt = chat_template.generate_prompt(
        opt_str(&conversation.conversation_parameters.system_prompt),
        history.as_slice(),
        opt_str(&conversation.conversation_parameters.start_response_with),
    );

    let params = conversation.conversation_parameters.clone();
    ctx.store.set_conversation(conversation_id, conversation);

    let max_new_tokens = match params.token_limit {
        Some(l) => l,
        None => if stream {
            DEFAULT_TOKEN_LIMIT_STREAMING
        } else {
            DEFAULT_TOKEN_LIMIT_COMPLETE
        },
    };
    let temperature = match params.temperature {
        Some(t) => t,
        None => Decimal::one(),
    };
    let start_response_with = match params.start_response_with {
        Some(s) => s,
        None => String::new(),
    };

    Some(
        GenerationRequest {
            model_id,
            prompt,
            max_new_tokens,
            temperature,
            top_k: params.top_k,
            top_p: params.top_p,
            repetition_penalty: params.repetition_penalty,
            stream,
            start_response_with,
        },
    )
}

/// Marks the generation as running and seeds the assistant message: created
/// immediately with the response prefix as its text, its id appended to the
/// conversation, so a pending bubble can show before content arrives. A
/// conversation deleted in the meantime is left alone.
pub fn begin_generation(
    ctx: &mut Context,
    conversation_id: ConversationId,
    req: &GenerationRequest,
    assistant_message_id: MessageId,
    now: Timestamp,
)
    requires
        old(ctx).wf(),
    ensures
        final(ctx).wf(),
        final(ctx).is_loading == true,
        final(ctx).errors@ == old(ctx).errors@,
        final(ctx).store.version == old(ctx).store.version,
        final(ctx).store.settings == old(ctx).store.settings,
        final(ctx).store.home == old(ctx).store.home,
        final(ctx).store.conversation_index@ == old(ctx).store.conversation_index@,
        match spec_get(final(ctx).store.messages@, assistant_message_id.0) {
            Some(m) => m.id == assistant_message_id && m.role == Role::Assistant && m.text
                == req.start_response_with && m.timestamp == now,
            None => false,
        },
        forall|k: u128|
            k != assistant_message_id.0 ==> spec_get(final(ctx).store.messages@, k) == spec_get(
                old(ctx).store.messages@,
                k,
            ),
        match spec_get(old(ctx).store.conversations@, conversation_id.0) {
            Some(c1) => match spec_get(final(ctx).store.conversations@, conversation_id.0) {
                Some(c2) => conversation_appended(c1, c2, assistant_message_id, now),
                None => false,
            },
            None => final(ctx).store.conversations@ == old(ctx).store.conversations@,
        },
        forall|k: u128|
            k != conversation_id.0 ==> spec_get(final(ctx).store.conversations@, k) == spec_get(
                old(ctx).store.conversations@,
                k,
            ),
{
    ctx.is_loading = true;
    let message = Message {
        id: assistant_message_id,
        role: Role::Assistant,
        text: req.start_response_with.clone(),
        timestamp: now,
    };
    ctx.store.set_message(assistant_message_id, message);
    match ctx.store.get_conversation(conversation_id) {
        Some(c) => {
            let mut updated = c.clone();
            updated.messages.push(assistant_message_id);
            updated.timestamp_last_interaction = now;
            ctx.store.set_conversation(conversation_id, updated);
        }
        None => {}
    }
}

/// One fragment of a streamed response: its text, and whether the backend
/// flags it as a control token rather than displayable text.
#[derive(Debug)]
pub struct Token {
    pub text: String,
    pub special: bool,
}

/// A message's text after one token: unchanged for a special token,
/// extended verbatim otherwise.
pub open spec fn applied_token_text(text: Seq<char>, special: bool, token_text: Seq<char>) -> Seq<
    char,
> {
    if special {
        text
    } else {
        text + token_text
    }
}

/// Applies one streamed token to the assistant message: special tokens are
/// discarded, any other token's text is appended verbatim. A message that
/// vanished in the meantime is left alone.
pub fn apply_stream_token(ctx: &mut Context, message_id: MessageId, token: &Token)
    requires
        old(ctx).wf(),
    ensures
        final(ctx).wf(),
        final(ctx).is_loading == old(ctx).is_loading,
        final(ctx).errors@ == old(ctx).errors@,
        final(ctx).store.version == old(ctx).store.version,
        final(ctx).store.settings == old(ctx).store.settings,
        final(ctx).store.home == old(ctx).store.home,
        final(ctx).store.conversation_index@ == old(ctx).store.conversation_index@,
        final(ctx).store.conversations@ == old(ctx).store.conversations@,
        match spec_get(old(ctx).store.messages@, message_id.0) {
            Some(m1) => match spec_get(final(ctx).store.messages@, message_id.0) {
                Some(m2) => m2.id == m1.id && m2.role == m1.role && m2.timestamp == m1.timestamp
                    && m2.text@ == applied_token_text(m1.text@, token.special, token.text@),
                None => false,
            },
            None => final(ctx).store.messages@ == old(ctx).store.messages@,
        },
        forall|k: u128|
            k != message_id.0 ==> spec_get(final(ctx).store.messages@, k) == spec_get(
                old(ctx).store.messages@,
                k,
            ),
{
    if token.special {
        return ;
    }
    match ctx.store.get_message(message_id) {
        Some(m) => {
            let mut updated = m.clone();
            updated.text.append(token.text.as_str());
            ctx.store.set_message(message_id, updated);
        }
        None => {}
    }
}

/// What a whole token sequence contributes to the assistant text: the
/// non-special texts concatenated in arrival order, nothing from special
/// tokens, no trimming.
pub open spec fn stream_text(tokens: Seq<Token>) -> Seq<char>
    decreases tokens.len(),
{
    if tokens.len() == 0 {
        Seq::<char>::empty()
    } else {
        stream_text(tokens.drop_last()) + (if tokens.last().special {
            Seq::<char>::empty()
        } else {
            tokens.last().text@
        })
    }
}

/// Applies a whole token sequence in order: the assistant text grows by
/// exactly the concatenation of the non-special tokens' texts. A message
/// that vanished in the meantime is left alone.
pub fn apply_stream(ctx: &mut Context, message_id: MessageId, tokens: &Vec<Token>)
    requires
        old(ctx).wf(),
    ensures
        final(ctx).wf(),
        final(ctx).is_loading == old(ctx).is_loading,
        final(ctx).errors@ == old(ctx).errors@,
        final(ctx).store.version == old(ctx).store.version,
        final(ctx).store.settings == old(ctx).store.settings,
        final(ctx).store.home == old(ctx).store.home,
        final(ctx).store.conversation_index@ == old(ctx).store.conversation_index@,
        final(ctx).store.conversations@ == old(ctx).store.conversations@,
        match spec_get(old(ctx).store.messages@, message_id.0) {
            Some(m1) => match spec_get(final(ctx).store.messages@, message_id.0) {
                Some(m2) => m2.id == m1.id && m2.role == m1.role && m2.timestamp == m1.timestamp
                    && m2.text@ == m1.text@ + stream_text(tokens@),
                None => false,
            },
            None => final(ctx).store.messages@ == old(ctx).store.messages@,
        },
        forall|k: u128|
            k != message_id.0 ==> spec_get(final(ctx).store.messages@, k) == spec_get(
                old(ctx).store.messages@,
                k,
            ),
{
    let n = tokens.len();
    let mut i: usize = 0;
    while i < n
        invariant
            i <= n,
            ctx.wf(),
            ctx.is_loading == old(ctx).is_loading,
            ctx.errors@ == old(ctx).errors@,
            ctx.store.version == old(ctx).store.version,
            ctx.store.settings == old(ctx).store.settings,
            ctx.store.home == old(ctx).store.home,
            ctx.store.conversation_index@ == old(ctx).store.conversation_index@,
            ctx.store.conversations@ == old(ctx).store.conversations@,
            match spec_get(old(ctx).store.messages@, message_id.0) {
                Some(m1) => match spec_get(ctx.store.messages@, message_id.0) {
                    Some(m2) => m2.id == m1.id && m2.role == m1.role && m2.timestamp
                        == m1.timestamp && m2.text@ == m1.text@ + stream_text(
                        tokens@.take(i as int),
                    ),
                    None => false,
                },
                None => ctx.store.messages@ == old(ctx).store.messages@,
            },
            forall|k: u128|
                k != message_id.0 ==> spec_get(ctx.store.messages@, k) == spec_get(
                    old(ctx).store.messages@,
                    k,
                ),
        decreases n - i,
    {
        proof {
            assert(tokens@.take(i + 1).drop_last() =~= tokens@.take(i as int));
            assert(tokens@.take(i + 1).last() == tokens@[i as int]);
        }
        apply_stream_token(ctx, message_id, &tokens[i]);
        i = i + 1;
    }
    proof {
        assert(tokens@.take(n as int) =~= tokens@);
    }
}

/// Writes a non-streaming backend's complete response as the assistant
/// message's whole text, in one write. A message that vanished in the
/// meantime is left alone.
pub fn apply_complete_response(ctx: &mut Context, message_id: MessageId, response: String)
    requires
        old(ctx).wf(),
    ensures
        final(ctx).wf(),
        final(ctx).is_loading == old(ctx).is_loading,
        final(ctx).errors@ == old(ctx).errors@,
        final(ctx).store.version == old(ctx).store.version,
        final(ctx).store.settings == old(ctx).store.settings,
        final(ctx).store.home == old(ctx).store.home,
        final(ctx).store.conversation_index@ == old(ctx).store.conversation_index@,
        final(ctx).store.conversations@ == old(ctx).store.conversations@,
        match spec_get(old(ctx).store.messages@, message_id.0) {
            Some(m1) => match spec_get(final(ctx).store.messages@, message_id.0) {
                Some(m2) => m2.id == m1.id && m2.role == m1.role && m2.timestamp == m1.timestamp
                    && m2.text == response,
                None => false,
            },
            None => final(ctx).store.messages@ == old(ctx).store.messages@,
        },
        forall|k: u128|
            k != message_id.0 ==> spec_get(final(ctx).store.messages@, k) == spec_get(
                old(ctx).store.messages@,
                k,
            ),
{
    match ctx.store.get_message(message_id) {
        Some(m) => {
            let mut updated = m.clone();
            updated.text = response;
            ctx.store.set_message(message_id, updated);
        }
        None => {}
    }
}

/// Ends a generation: a failure is reported as exactly one new entry, and
/// the busy flag is dropped whatever the outcome — the one finally-like
/// guarantee of the pipeline. The store is untouched: a partially written
/// assistant message stays as it is.
pub fn finish_generation(ctx: &mut Context, result: Result<(), Error>)
    requires
        old(ctx).wf(),
    ensures
        final(ctx).wf(),
        final(ctx).is_loading == false,
        final(ctx).store.version == old(ctx).store.version,
        final(ctx).store.settings == old(ctx).store.settings,
        final(ctx).store.home == old(ctx).store.home,
        final(ctx).store.conversation_index@ == old(ctx).store.conversation_index@,
        final(ctx).store.conversations@ == old(ctx).store.conversations@,
        final(ctx).store.messages@ == old(ctx).store.messages@,
        match result {
            Ok(_) => final(ctx).errors@ == old(ctx).errors@,
            Err(e) => {
                &&& final(ctx).errors@.len() == old(ctx).errors@.len() + 1
                &&& forall|i: int|
                    0 <= i < old(ctx).errors@.len() ==> final(ctx).errors@[i] == old(ctx).errors@[i]
                &&& final(ctx).errors@.last().message@ == e.spec_message()
                &&& final(ctx).errors@.last().trace@ == e.spec_trace()
            },
        },
{
    if let Err(e) = &result {
        report_error(&mut ctx.errors, e);
    }
    ctx.is_loading = false;
}

/// Creates a conversation from the landing view's draft: the chosen model,
/// the drafted parameters, both timestamps at now, no messages yet; and
/// lists its id in the conversation index.
pub fn start_conversation(
    ctx: &mut Context,
    conversation_id: ConversationId,
    model_id: ModelId,
    conversation_parameters: ConversationParameters,
    now: Timestamp,
)
    requires
        old(ctx).wf(),
    ensures
        final(ctx).wf(),
        final(ctx).is_loading == old(ctx).is_loading,
        final(ctx).errors@ == old(ctx).errors@,
        final(ctx).store.version == old(ctx).store.version,
        final(ctx).store.settings == old(ctx).store.settings,
        final(ctx).store.home == old(ctx).store.home,
        final(ctx).store.messages@ == old(ctx).store.messages@,
        final(ctx).store.conversation_index@.contains(conversation_id),
        old(ctx).store.conversation_index@.contains(conversation_id) ==> final(ctx).store.conversation_index@ == old(ctx).store.conversation_index@,
        !old(ctx).store.conversation_index@.contains(conversation_id) ==> final(ctx).store.conversation_index@ == old(ctx).store.conversation_index@.push(conversation_id),
        match spec_get(final(ctx).store.conversations@, conversation_id.0) {
            Some(c) => c.id == conversation_id && c.model_id == Some(model_id) && c.title is None
                && c.timestamp_started == now && c.timestamp_last_interaction == now
                && c.conversation_parameters == conversation_parameters && c.user_message@
                == Seq::<char>::empty() && c.messages@ == Seq::<MessageId>::empty(),
            None => false,
        },
        forall|k: u128|
            k != conversation_id.0 ==> spec_get(final(ctx).store.conversations@, k) == spec_get(
                old(ctx).store.conversations@,
                k,
            ),
{
    ctx.store.index_insert(conversation_id);
    let conversation = Conversation {
        id: conversation_id,
        model_id: Some(model_id),
        title: None,
        timestamp_started: now,
        timestamp_last_interaction: now,
        conversation_parameters,
        user_message: String::new(),
        messages: Vec::new(),
    };
    ctx.store.set_conversation(conversation_id, conversation);
}

/// Takes the landing view's draft for submission: hands back its text and
/// parameters and clears the drafted text, leaving model choice and
/// parameters in place. An unwritten draft reads as the initial one.
pub fn take_home_draft(ctx: &mut Context, config: &BuildConfig) -> (r: (
    String,
    ConversationParameters,
))
    requires
        old(ctx).wf(),
    ensures
        final(ctx).wf(),
        final(ctx).is_loading == old(ctx).is_loading,
        final(ctx).errors@ == old(ctx).errors@,
        final(ctx).store.version == old(ctx).store.version,
        final(ctx).store.settings == old(ctx).store.settings,
        final(ctx).store.conversation_index@ == old(ctx).store.conversation_index@,
        final(ctx).store.conversations@ == old(ctx).store.conversations@,
        final(ctx).store.messages@ == old(ctx).store.messages@,
        match old(ctx).store.home {
            Some(h) => r.0 == h.user_message && r.1 == h.conversation_parameters && (match final(ctx).store.home {
                Some(h2) => h2.selected_model == h.selected_model && h2.conversation_parameters
                    == h.conversation_parameters && h2.user_message@ == Seq::<char>::empty(),
                None => false,
            }),
            None => r.0@ == Seq::<char>::empty() && r.1
                == ConversationParameters::spec_default() && (match final(ctx).store.home {
                Some(h2) => h2.selected_model == config.default_model
                    && h2.conversation_parameters == ConversationParameters::spec_default()
                    && h2.user_message@ == Seq::<char>::empty(),
                None => false,
            }),
        },
{
    let home = match ctx.store.get_home() {
        Some(h) => h.clone(),
        None => Home::initial(config),
    };
    let Home { selected_model, conversation_parameters, user_message } = home;
    let params = conversation_parameters.clone();
    ctx.store.set_home(
        Home { selected_model, conversation_parameters, user_message: String::new() },
    );
    (user_message, params)
}

/// Writes a generated title into the conversation; one deleted in the
/// meantime is left alone.
pub fn apply_title(ctx: &mut Context, conversation_id: ConversationId, title: String)
    requires
        old(ctx).wf(),
    ensures
        final(ctx).wf(),
        final(ctx).is_loading == old(ctx).is_loading,
        final(ctx).errors@ == old(ctx).errors@,
        final(ctx).store.version == old(ctx).store.version,
        final(ctx).store.settings == old(ctx).store.settings,
        final(ctx).store.home == old(ctx).store.home,
        final(ctx).store.conversation_index@ == old(ctx).store.conversation_index@,
        final(ctx).store.messages@ == old(ctx).store.messages@,
        match spec_get(old(ctx).store.conversations@, conversation_id.0) {
            Some(c1) => match spec_get(final(ctx).store.conversations@, conversation_id.0) {
                Some(c2) => c2.id == c1.id && c2.model_id == c1.model_id && c2.title == Some(title)
                    && c2.timestamp_started == c1.timestamp_started
                    && c2.timestamp_last_interaction == c1.timestamp_last_interaction
                    && c2.conversation_parameters == c1.conversation_parameters && c2.user_message
                    == c1.user_message && c2.messages@ == c1.messages@,
                None => false,
            },
            None => final(ctx).store.conversations@ == old(ctx).store.conversations@,
        },
        forall|k: u128|
            k != conversation_id.0 ==> spec_get(final(ctx).store.conversations@, k) == spec_get(
                old(ctx).store.conversations@,
                k,
            ),
{
    match ctx.store.get_conversation(conversation_id) {
        Some(c) => {
            let mut updated = c.clone();
            updated.title = Some(title);
            ctx.store.set_conversation(conversation_id, updated);
        }
        None => {}
    }
}

/// Reconciles the stored data version with the running app's: records the
/// version on first start, and otherwise says which side is newer.
pub fn reconcile_version(ctx: &mut Context, app: Version) -> (r: VersionCheck)
    requires
        old(ctx).wf(),
    ensures
        final(ctx).wf(),
        final(ctx).is_loading == old(ctx).is_loading,
        final(ctx).errors@ == old(ctx).errors@,
        final(ctx).store.settings == old(ctx).store.settings,
        final(ctx).store.home == old(ctx).store.home,
        final(ctx).store.conversation_index@ == old(ctx).store.conversation_index@,
        final(ctx).store.conversations@ == old(ctx).store.conversations@,
        final(ctx).store.messages@ == old(ctx).store.messages@,
        match old(ctx).store.version {
            None => r == VersionCheck::Fresh && final(ctx).store.version == Some(app),
            Some(v) => final(ctx).store.version == old(ctx).store.version && r == (if version_lt(
                app,
                v,
            ) {
                VersionCheck::StorageNewer
            } else if version_lt(v, app) {
                VersionCheck::StorageOlder
            } else {
                VersionCheck::Match
            }),
        },
{
    let stored = match ctx.store.get_version() {
        Some(v) => Some(*v),
        None => None,
    };
    match stored {
        None => {
            ctx.store.set_version(app);
            VersionCheck::Fresh
        }
        Some(v) => {
            if app.lt(&v) {
                VersionCheck::StorageNewer
            } else if v.lt(&app) {
                VersionCheck::StorageOlder
            } else {
                VersionCheck::Match
            }
        }
    }
}

/// Why an entered model id is not accepted.
#[derive(Clone, Copy, Debug, PartialEq, Eq, Structural)]
pub enum ModelIdInvalidReason {
    Empty,
    AlreadyExists,
    NotFound,
    NotLoadable,
    InferenceFailed,
}

/// Where the asynchronous check of an entered model id stands.
#[derive(Clone, Copy, Debug, PartialEq, Eq, Structural)]
pub enum ModelIdState {
    Checking,
    Valid,
    Invalid(ModelIdInvalidReason),
}

impl Default for ModelIdState {
    /// An empty input field: invalid for want of any id.
    fn default() -> (r: Self)
        ensures
            r == ModelIdState::Invalid(ModelIdInvalidReason::Empty),
    {
        ModelIdState::Invalid(ModelIdInvalidReason::Empty)
    }
}

/// Whether the entered text names a real model: loadability and inference
/// failures still name one, an empty or unknown id does not.
pub open spec fn spec_is_valid_model_id(s: ModelIdState) -> bool {
    match s {
        ModelIdState::Checking => true,
        ModelIdState::Valid => true,
        ModelIdState::Invalid(reason) => match reason {
            ModelIdInvalidReason::AlreadyExists => true,
            ModelIdInvalidReason::NotLoadable => true,
            ModelIdInvalidReason::InferenceFailed => true,
            ModelIdInvalidReason::Empty => false,
            ModelIdInvalidReason::NotFound => false,
        },
    }
}

impl ModelIdState {
    pub fn is_valid_model_id(&self) -> (r: bool)
        ensures
            r == spec_is_valid_model_id(*self),
    {
        match self {
            ModelIdState::Checking => true,
            ModelIdState::Valid => true,
            ModelIdState::Invalid(reason) => match reason {
                ModelIdInvalidReason::AlreadyExists => true,
                ModelIdInvalidReason::NotLoadable => true,
                ModelIdInvalidReason::InferenceFailed => true,
                ModelIdInvalidReason::Empty => false,
                ModelIdInvalidReason::NotFound => false,
            },
        }
    }
}

/// The verdict of the model check, given what its probes found: the id
/// being edited is always fine, a catalog duplicate is flagged, then the
/// status probe and the one-shot inference probe decide.
pub open spec fn spec_classify_model_check(
    is_selected_model: bool,
    already_exists: bool,
    is_loadable: bool,
    inference_worked: bool,
) -> ModelIdState {
    if is_selected_model {
        ModelIdState::Valid
    } else if already_exists {
        ModelIdState::Invalid(ModelIdInvalidReason::AlreadyExists)
    } else if !is_loadable {
        ModelIdState::Invalid(ModelIdInvalidReason::NotLoadable)
    } else if inference_worked {
        ModelIdState::Valid
    } else {
        ModelIdState::Invalid(ModelIdInvalidReason::InferenceFailed)
    }
}

/// Decides the model check from its probes' outcomes; the asynchronous
/// probing itself happens at the backend boundary.
pub fn classify_model_check(
    is_selected_model: bool,
    already_exists: bool,
    is_loadable: bool,
    inference_worked: bool,
) -> (r: ModelIdState)
    ensures
        r == spec_classify_model_check(
            is_selected_model,
            already_exists,
            is_loadable,
            inference_worked,
        ),
{
    if is_selected_model {
        ModelIdState::Valid
    } else if already_exists {
        ModelIdState::Invalid(ModelIdInvalidReason::AlreadyExists)
    } else if !is_loadable {
        ModelIdState::Invalid(ModelIdInvalidReason::NotLoadable)
    } else if inference_worked {
        ModelIdState::Valid
    } else {
        ModelIdState::Invalid(ModelIdInvalidReason::InferenceFailed)
    }
}

/// One awaited round appends exactly the user message id and then the
/// assistant message id to the conversation, leaving every earlier entry in
/// place: sequential rounds therefore list ids strictly in the order
/// user, assistant, user, assistant, and so on.
pub proof fn lemma_round_appends_in_order(
    c0: Conversation,
    c1: Conversation,
    c2: Conversation,
    user_id: MessageId,
    assistant_id: MessageId,
    t1: Timestamp,
    t2: Timestamp,
)
    requires
        conversation_appended(c0, c1, user_id, t1),
        conversation_appended(c1, c2, assistant_id, t2),
    ensures
        c2.messages@ == c0.messages@.push(user_id).push(assistant_id),
        c2.messages@.len() == c0.messages@.len() + 2,
        c2.messages@[c0.messages@.len() as int] == user_id,
        c2.messages@[c0.messages@.len() as int + 1] == assistant_id,
        forall|i: int| 0 <= i < c0.messages@.len() ==> c2.messages@[i] == c0.messages@[i],
{
}

/// Token budget of the title generation: titles are short.
pub const TITLE_TOKEN_LIMIT: usize = 20;

/// The few-shot prompt that asks the titling model for a conversation
/// title, seeded with the user's first message.
pub open spec fn title_prompt_chars(user_message: Seq<char>) -> Seq<char> {
    "<|im_start|>system\nYour job is to generate a short descriptive title of a chat conversation between an user and an AI assistant, given the first message from the user.\nStart the title with a fitting emoji. Please respond only with the title and nothing else.\n<|im_end|>\n<|im_start|>user\nMessage: Write a short poem about AI.\n<|im_end|>\n<|im_start|>assistant\n\u{2728} A Modern Muse\n<|im_end|>\n<|im_start|>user\nMessage: "@
        + user_message + "\n<|im_end|>\n<|im_start|>assistant\n"@
}

/// Renders the titling prompt for a seed message.
pub fn title_prompt(user_message: &str) -> (r: String)
    ensures
        r@ == title_prompt_chars(user_message@),
{
    let mut s =
        "<|im_start|>system\nYour job is to generate a short descriptive title of a chat conversation between an user and an AI assistant, given the first message from the user.\nStart the title with a fitting emoji. Please respond only with the title and nothing else.\n<|im_end|>\n<|im_start|>user\nMessage: Write a short poem about AI.\n<|im_end|>\n<|im_start|>assistant\n\u{2728} A Modern Muse\n<|im_end|>\n<|im_start|>user\nMessage: ".to_owned();
    s.append(user_message);
    s.append("\n<|im_end|>\n<|im_start|>assistant\n");
    s
}

/// The request that asks the fixed auxiliary model for a title: the
/// few-shot prompt, a small token budget, no sampling overrides, no
/// streaming.
pub fn title_request(user_message: &str) -> (r: GenerationRequest)
    ensures
        r.model_id.0@ == "NousResearch/Nous-Hermes-2-Mixtral-8x7B-DPO"@,
        r.prompt@ == title_prompt_chars(user_message@),
        r.max_new_tokens == TITLE_TOKEN_LIMIT,
        r.temperature == (Decimal { mantissa: 1u64, scale: 0u32 }),
        r.top_k is None,
        r.top_p is None,
        r.repetition_penalty is None,
        r.stream == false,
        r.start_response_with@ == Seq::<char>::empty(),
{
    GenerationRequest {
        model_id: ModelId::from_name("NousResearch/Nous-Hermes-2-Mixtral-8x7B-DPO"),
        prompt: title_prompt(user_message),
        max_new_tokens: TITLE_TOKEN_LIMIT,
        temperature: Decimal::one(),
        top_k: None,
        top_p: None,
        repetition_penalty: None,
        stream: false,
        start_response_with: String::new(),
    }
}

/// Where the first line break stands, or the length when there is none.
pub open spec fn first_nl(s: Seq<char>) -> int
    decreases s.len(),
{
    if s.len() == 0 {
        0
    } else if s[0] == '\n' {
        0
    } else {
        1 + first_nl(s.skip(1))
    }
}

/// A position before which no line break stands, and which is a break or
/// the end, is where `first_nl` points.
proof fn lemma_first_nl_at(s: Seq<char>, k: int)
    requires
        0 <= k <= s.len(),
        forall|j: int| 0 <= j < k ==> s[j] != '\n',
        k < s.len() ==> s[k] == '\n',
    ensures
        first_nl(s) == k,
    decreases s.len(),
{
    if s.len() == 0 {
    } else if s[0] == '\n' {
        assert(k == 0);
    } else {
        assert(k >= 1);
        assert forall|j: int| 0 <= j < k - 1 implies s.skip(1)[j] != '\n' by {
            assert(s.skip(1)[j] == s[j + 1]);
        }
        if k - 1 < s.skip(1).len() {
            assert(s.skip(1)[k - 1] == s[k]);
        }
        lemma_first_nl_at(s.skip(1), k - 1);
    }
}

/// The first line of a text: everything before the first line break, with a
/// carriage return directly before the break stripped.
pub open spec fn first_line_chars(s: Seq<char>) -> Seq<char> {
    let line = s.take(first_nl(s));
    if line.len() > 0 && line.last() == '\r' {
        line.drop_last()
    } else {
        line
    }
}

/// Takes the first line of a response; a generated title keeps only this.
pub fn first_line(response: &str) -> (r: String)
    ensures
        r@ == first_line_chars(response@),
{
    let n = response.unicode_len();
    let mut end: usize = n;
    let mut i: usize = 0;
    while i < n && end == n
        invariant
            i <= n,
            n == response@.len(),
            end <= n,
            end == n ==> forall|j: int| 0 <= j < i ==> response@[j] != '\n',
            end < n ==> response@[end as int] == '\n' && (forall|j: int|
                0 <= j < end ==> response@[j] != '\n'),
        decreases n - i,
    {
        if response.get_char(i) == '\n' {
            end = i;
        }
        i = i + 1;
    }
    proof {
        lemma_first_nl_at(response@, end as int);
    }
    let line_end = if end > 0 && response.get_char(end - 1) == '\r' {
        end - 1
    } else {
        end
    };
    let line = response.substring_char(0, line_end);
    proof {
        assert(line@ =~= first_line_chars(response@));
    }
    line.to_owned()
}

/// Replaces a conversation's generation parameters, as the parameter form
/// edits them; one deleted in the meantime is left alone.
pub fn update_conversation_parameters(
    ctx: &mut Context,
    conversation_id: ConversationId,
    conversation_parameters: ConversationParameters,
)
    requires
        old(ctx).wf(),
    ensures
        final(ctx).wf(),
        final(ctx).is_loading == old(ctx).is_loading,
        final(ctx).errors@ == old(ctx).errors@,
        final(ctx).store.version == old(ctx).store.version,
        final(ctx).store.settings == old(ctx).store.settings,
        final(ctx).store.home == old(ctx).store.home,
        final(ctx).store.conversation_index@ == old(ctx).store.conversation_index@,
        final(ctx).store.messages@ == old(ctx).store.messages@,
        match spec_get(old(ctx).store.conversations@, conversation_id.0) {
            Some(c1) => match spec_get(final(ctx).store.conversations@, conversation_id.0) {
                Some(c2) => c2.id == c1.id && c2.model_id == c1.model_id && c2.title == c1.title
                    && c2.timestamp_started == c1.timestamp_started
                    && c2.timestamp_last_interaction == c1.timestamp_last_interaction
                    && c2.conversation_parameters == conversation_parameters && c2.user_message
                    == c1.user_message && c2.messages@ == c1.messages@,
                None => false,
            },
            None => final(ctx).store.conversations@ == old(ctx).store.conversations@,
        },
        forall|k: u128|
            k != conversation_id.0 ==> spec_get(final(ctx).store.conversations@, k) == spec_get(
                old(ctx).store.conversations@,
                k,
            ),
{
    match ctx.store.get_conversation(conversation_id) {
        Some(c) => {
            let mut updated = c.clone();
            updated.conversation_parameters = conversation_parameters;
            ctx.store.set_conversation(conversation_id, updated);
        }
        None => {}
    }
}

/// Replaces a conversation's drafted input, as the message field edits it;
/// one deleted in the meantime is left alone.
pub fn set_conversation_draft(ctx: &mut Context, conversation_id: ConversationId, draft: String)
    requires
        old(ctx).wf(),
    ensures
        final(ctx).wf(),
        final(ctx).is_loading == old(ctx).is_loading,
        final(ctx).errors@ == old(ctx).errors@,
        final(ctx).store.version == old(ctx).store.version,
        final(ctx).store.settings == old(ctx).store.settings,
        final(ctx).store.home == old(ctx).store.home,
        final(ctx).store.conversation_index@ == old(ctx).store.conversation_index@,
        final(ctx).store.messages@ == old(ctx).store.messages@,
        match spec_get(old(ctx).store.conversations@, conversation_id.0) {
            Some(c1) => match spec_get(final(ctx).store.conversations@, conversation_id.0) {
                Some(c2) => c2.id == c1.id && c2.model_id == c1.model_id && c2.title == c1.title
                    && c2.timestamp_started == c1.timestamp_started
                    && c2.timestamp_last_interaction == c1.timestamp_last_interaction
                    && c2.conversation_parameters == c1.conversation_parameters && c2.user_message
                    == draft && c2.messages@ == c1.messages@,
                None => false,
            },
            None => final(ctx).store.conversations@ == old(ctx).store.conversations@,
        },
        forall|k: u128|
            k != conversation_id.0 ==> spec_get(final(ctx).store.conversations@, k) == spec_get(
                old(ctx).store.conversations@,
                k,
            ),
{
    match ctx.store.get_conversation(conversation_id) {
        Some(c) => {
            let mut updated = c.clone();
            updated.user_message = draft;
            ctx.store.set_conversation(conversation_id, updated);
        }
        None => {}
    }
}

/// Whether the store holds a conversation under the id.
pub open spec fn is_live(store: Store, id: ConversationId) -> bool {
    spec_get(store.conversations@, id.0) is Some
}

/// When a conversation last changed, as epoch milliseconds.
pub open spec fn last_interaction(store: Store, id: ConversationId) -> int {
    (spec_get(store.conversations@, id.0)->0).timestamp_last_interaction.0 as int
}

/// The sidebar's conversation list: every id of the index that still
/// resolves, most recently used first; dangling index entries are skipped.
#[verifier::rlimit(60)]
pub fn sorted_conversations(ctx: &Context) -> (r: Vec<ConversationId>)
    requires
        ctx.wf(),
    ensures
        forall|i: int, j: int|
            0 <= i < j < r@.len() ==> last_interaction(ctx.store, r@[i]) >= last_interaction(
                ctx.store,
                r@[j],
            ),
        forall|i: int|
            0 <= i < r@.len() ==> is_live(ctx.store, #[trigger] r@[i])
                && ctx.store.conversation_index@.contains(r@[i]),
        forall|c: ConversationId|
            ctx.store.conversation_index@.contains(c) && is_live(ctx.store, c) ==> r@.contains(c),
        forall|i: int, j: int| 0 <= i < j < r@.len() ==> r@[i] != r@[j],
{
    let ghost index = ctx.store.conversation_index@;
    let index_len = ctx.store.conversation_index.len();
    let mut out: Vec<ConversationId> = Vec::new();
    let mut k: usize = 0;
    while k < index_len
        invariant
            k <= index_len,
            index_len == index.len(),
            forall|i: int, j: int|
                0 <= i < j < out@.len() ==> last_interaction(ctx.store, out@[i])
                    >= last_interaction(ctx.store, out@[j]),
            forall|i: int|
                0 <= i < out@.len() ==> is_live(ctx.store, #[trigger] out@[i]) && (exists|t: int|
                    0 <= t < k && index[t] == out@[i]),
            forall|c: ConversationId|
                (exists|t: int| 0 <= t < k && index[t] == c) && is_live(ctx.store, c)
                    ==> out@.contains(c),
            forall|i: int, j: int| 0 <= i < j < out@.len() ==> out@[i] != out@[j],
        decreases index_len - k,
    {
        let id = ctx.store.conversation_index[k];
        match ctx.store.get_conversation(id) {
            None => {
                proof {
                    assert forall|c: ConversationId|
                        (exists|t: int| 0 <= t < k + 1 && index[t] == c) && is_live(
                            ctx.store,
                            c,
                        ) implies out@.contains(c) by {
                        let t = choose|t: int| 0 <= t < k + 1 && index[t] == c;
                        assert(t < k);
                    }
                }
            }
            Some(c) => {
                let ts = c.timestamp_last_interaction.0;
                let ghost before = out@;
                let n_out = out.len();
                let mut p: usize = 0;
                let mut stop = false;
                while p < n_out && !stop
                    invariant
                        p <= n_out,
                        n_out == before.len(),
                        out@ == before,
                        forall|q: int|
                            0 <= q < p ==> last_interaction(ctx.store, before[q]) >= ts,
                        stop ==> p < n_out && last_interaction(ctx.store, before[p as int]) < ts,
                    decreases n_out - p, (if stop { 0int } else { 1int }),
                {
                    let other = out[p];
                    let oc = match ctx.store.get_conversation(other) {
                        Some(oc) => oc,
                        None => unreached(),
                    };
                    if oc.timestamp_last_interaction.0 < ts {
                        stop = true;
                    } else {
                        p = p + 1;
                    }
                }
                out.insert(p, id);
                proof {
                    before.insert_ensures(p as int, id);
                    assert(is_live(ctx.store, id) && last_interaction(ctx.store, id) == ts);
                    // every earlier entry came from an earlier index slot, so
                    // the inserted id differs from all of them
                    assert forall|i: int| 0 <= i < out@.len() implies is_live(
                        ctx.store,
                        #[trigger] out@[i],
                    ) && (exists|t: int| 0 <= t < k + 1 && index[t] == out@[i]) by {
                        if i < p {
                            assert(out@[i] == before[i]);
                        } else if i == p {
                            assert(out@[i] == id);
                            assert(index[k as int] == id);
                        } else {
                            assert(out@[i] == before[i - 1]);
                        }
                    }
                    assert forall|i: int, j: int|
                        0 <= i < j < out@.len() implies last_interaction(ctx.store, out@[i])
                        >= last_interaction(ctx.store, out@[j]) by {
                        if j < p {
                        } else if j == p {
                            assert(out@[i] == before[i]);
                            assert(last_interaction(ctx.store, before[i]) >= ts);
                        } else if i == p {
                            assert(out@[j] == before[j - 1]);
                            if stop {
                                if j - 1 > p {
                                    assert(last_interaction(ctx.store, before[p as int])
                                        >= last_interaction(ctx.store, before[j - 1]));
                                }
                                assert(last_interaction(ctx.store, before[j - 1]) < ts);
                            }
                        } else if i < p {
                            assert(out@[i] == before[i]);
                            assert(out@[j] == before[j - 1]);
                        } else {
                            assert(out@[i] == before[i - 1]);
                            assert(out@[j] == before[j - 1]);
                        }
                    }
                    assert forall|c: ConversationId|
                        (exists|t: int| 0 <= t < k + 1 && index[t] == c) && is_live(
                            ctx.store,
                            c,
                        ) implies out@.contains(c) by {
                        let t = choose|t: int| 0 <= t < k + 1 && index[t] == c;
                        if t < k {
                            assert(before.contains(c));
                            let w = choose|w: int| 0 <= w < before.len() && before[w] == c;
                            if w < p {
                                assert(out@[w] == c);
                            } else {
                                assert(out@[w + 1] == c);
                            }
                        } else {
                            assert(c == id);
                            assert(out@[p as int] == c);
                        }
                    }
                    assert forall|i: int, j: int|
                        0 <= i < j < out@.len() implies out@[i] != out@[j] by {
                        if i != p && j != p {
                            let i0 = if i < p { i } else { i - 1 };
                            let j0 = if j < p { j } else { j - 1 };
                            assert(out@[i] == before[i0]);
                            assert(out@[j] == before[j0]);
                        } else {
                            let w = if i == p { j } else { i };
                            let w0 = if w < p { w } else { w - 1 };
                            assert(out@[w] == before[w0]);
                            let t = choose|t: int| 0 <= t < k && index[t] == before[w0];
                            assert(index[k as int] == id);
                            assert(index[t] != index[k as int]);
                        }
                    }
                }
            }
        }
        k = k + 1;
    }
    proof {
        assert forall|c: ConversationId|
            ctx.store.conversation_index@.contains(c) && is_live(ctx.store, c) implies out@
            .contains(c) by {
            let t = choose|t: int| 0 <= t < index.len() && index[t] == c;
        }
        assert forall|i: int|
            0 <= i < out@.len() implies is_live(ctx.store, #[trigger] out@[i])
                && ctx.store.conversation_index@.contains(out@[i]) by {
            let t = choose|t: int| 0 <= t < k && index[t] == out@[i];
            assert(index[t] == out@[i]);
        }
    }
    out
}

} // verus!
