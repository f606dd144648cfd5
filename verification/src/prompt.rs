use vstd::prelude::*;

use crate::state::{ChatTemplate, Message, Role};

verus! {

/// The char sequence of an optional string, empty when absent.
pub open spec fn opt_chars(o: Option<Seq<char>>) -> Seq<char> {
    match o {
        Some(s) => s,
        None => Seq::<char>::empty(),
    }
}

/// The view of an optional string slice.
pub open spec fn opt_view(o: Option<&str>) -> Option<Seq<char>> {
    match o {
        Some(s) => Some(s@),
        None => None,
    }
}

/// Plain template: every message's text on a line of its own.
pub open spec fn plain_prompt(messages: Seq<Message>) -> Seq<char>
    decreases messages.len(),
{
    if messages.len() == 0 {
        Seq::<char>::empty()
    } else {
        plain_prompt(messages.drop_last()) + messages.last().text@ + "\n"@
    }
}

/// Instruct template: user messages wrapped in instruction tags, assistant
/// messages verbatim, one line each.
pub open spec fn instruct_block(m: Message) -> Seq<char> {
    if m.role == Role::User {
        "[INST] "@ + m.text@ + " [/INST]\n"@
    } else {
        m.text@ + "\n"@
    }
}

pub open spec fn instruct_prompt(messages: Seq<Message>) -> Seq<char>
    decreases messages.len(),
{
    if messages.len() == 0 {
        Seq::<char>::empty()
    } else {
        instruct_prompt(messages.drop_last()) + instruct_block(messages.last())
    }
}

/// The role tag a message carries inside a ChatML block.
pub open spec fn chatml_role(r: Role) -> Seq<char> {
    if r == Role::Assistant {
        "assistant"@
    } else {
        "user"@
    }
}

/// One ChatML turn block.
pub open spec fn chatml_block(m: Message) -> Seq<char> {
    "<|im_start|>"@ + chatml_role(m.role) + "\n"@ + m.text@ + "<|im_end|>\n"@
}

pub open spec fn chatml_messages(messages: Seq<Message>) -> Seq<char>
    decreases messages.len(),
{
    if messages.len() == 0 {
        Seq::<char>::empty()
    } else {
        chatml_messages(messages.drop_last()) + chatml_block(messages.last())
    }
}

/// The leading system turn of a ChatML prompt, when a system prompt is set.
pub open spec fn chatml_system(system_prompt: Option<Seq<char>>) -> Seq<char> {
    match system_prompt {
        Some(s) => "<|im_start|>system\n"@ + s + "<|im_end|>\n"@,
        None => Seq::<char>::empty(),
    }
}

/// The full prompt a template renders for a history, an optional system
/// prompt and an optional response prefix. Only ChatML honors the system
/// prompt; the response prefix is always appended verbatim.
pub open spec fn prompt_spec(
    template: ChatTemplate,
    system_prompt: Option<Seq<char>>,
    messages: Seq<Message>,
    start_response_with: Option<Seq<char>>,
) -> Seq<char> {
    let base = match template {
        ChatTemplate::Plain => plain_prompt(messages),
        ChatTemplate::Instruct => instruct_prompt(messages),
        ChatTemplate::ChatML => chatml_system(system_prompt) + chatml_messages(messages)
            + "<|im_start|>assistant\n"@,
    };
    base + opt_chars(start_response_with)
}

impl ChatTemplate {
    /// Whether prompts of this template carry the system prompt; true for
    /// ChatML alone.
    pub fn supports_system_prompt(&self) -> (r: bool)
        ensures
            r == (*self == ChatTemplate::ChatML),
    {
        match self {
            ChatTemplate::ChatML => true,
            _ => false,
        }
    }

    /// Renders the history into one prompt string; char-identical to
    /// `prompt_spec` on the same inputs.
    pub fn generate_prompt(
        &self,
        system_prompt: Option<&str>,
        messages: &[Message],
        start_response_with: Option<&str>,
    ) -> (r: String)
        ensures
            r@ == prompt_spec(
                *self,
                opt_view(system_prompt),
                messages@,
                opt_view(start_response_with),
            ),
    {
        let mut prompt = String::new();
        match self {
            ChatTemplate::Plain => {
                let n = messages.len();
                let mut i: usize = 0;
                while i < n
                    invariant
                        i <= n,
                        n == messages@.len(),
                        prompt@ == plain_prompt(messages@.take(i as int)),
                    decreases n - i,
                {
                    prompt.append(messages[i].text.as_str());
                    prompt.append("\n");
                    proof {
                        assert(messages@.take(i + 1).drop_last() =~= messages@.take(i as int));
                    }
                    i = i + 1;
                }
                proof {
                    assert(messages@.take(n as int) =~= messages@);
                }
            }
            ChatTemplate::Instruct => {
                let n = messages.len();
                let mut i: usize = 0;
                while i < n
                    invariant
                        i <= n,
                        n == messages@.len(),
                        prompt@ == instruct_prompt(messages@.take(i as int)),
                    decreases n - i,
                {
                    let message = &messages[i];
                    match message.role {
                        Role::User => {
                            prompt.append("[INST] ");
                            prompt.append(message.text.as_str());
                            prompt.append(" [/INST]\n");
                        }
                        Role::Assistant => {
                            prompt.append(message.text.as_str());
                            prompt.append("\n");
                        }
                    }
                    proof {
                        assert(messages@.take(i + 1).drop_last() =~= messages@.take(i as int));
                    }
                    i = i + 1;
                }
                proof {
                    assert(messages@.take(n as int) =~= messages@);
                }
            }
            ChatTemplate::ChatML => {
                if let Some(system_prompt) = system_prompt {
                    prompt.append("<|im_start|>system\n");
                    prompt.append(system_prompt);
                    prompt.append("<|im_end|>\n");
                }
                let ghost header = prompt@;
                let n = messages.len();
                let mut i: usize = 0;
                while i < n
                    invariant
                        i <= n,
                        n == messages@.len(),
                        header == chatml_system(opt_view(system_prompt)),
                        prompt@ == header + chatml_messages(messages@.take(i as int)),
                    decreases n - i,
                {
                    let message = &messages[i];
                    prompt.append("<|im_start|>");
                    match message.role {
                        Role::Assistant => prompt.append("assistant"),
                        Role::User => prompt.append("user"),
                    }
                    prompt.append("\n");
                    prompt.append(message.text.as_str());
                    prompt.append("<|im_end|>\n");
                    proof {
                        assert(messages@.take(i + 1).drop_last() =~= messages@.take(i as int));
                        assert(prompt@ =~= header + chatml_messages(messages@.take(i + 1)));
                    }
                    i = i + 1;
                }
                prompt.append("<|im_start|>assistant\n");
                proof {
                    assert(messages@.take(n as int) =~= messages@);
                    assert(prompt@ =~= chatml_system(opt_view(system_prompt)) + chatml_messages(
                        messages@,
                    ) + "<|im_start|>assistant\n"@);
                }
            }
        }
        if let Some(start_response_with) = start_response_with {
            prompt.append(start_response_with);
        }
        proof {
            assert(prompt@ =~= prompt_spec(
                *self,
                opt_view(system_prompt),
                messages@,
                opt_view(start_response_with),
            ));
        }
        prompt
    }
}

/// Prompt generation is deterministic: any two prompts rendered from the
/// same template, system prompt, message history and response prefix are
/// char-identical. With `generate_prompt`'s contract this pins repeated
/// calls to byte-identical output.
pub proof fn lemma_prompt_deterministic(
    template: ChatTemplate,
    system_prompt: Option<Seq<char>>,
    messages: Seq<Message>,
    start_response_with: Option<Seq<char>>,
    r1: Seq<char>,
    r2: Seq<char>,
)
    requires
        r1 == prompt_spec(template, system_prompt, messages, start_response_with),
        r2 == prompt_spec(template, system_prompt, messages, start_response_with),
    ensures
        r1 == r2,
{
}

} // verus!
