use vstd::prelude::*;

use crate::ids::{ConversationId, MessageId, Timestamp};
use crate::params::ConversationParameters;

verus! {

/// The app's own release number, kept in storage so that a newer app can
/// detect (and migrate) data written by an older one.
#[derive(Clone, Copy, Debug, PartialEq, Eq, Structural)]
pub struct Version {
    pub major: u64,
    pub minor: u64,
    pub patch: u64,
}

/// How a stored version number relates to the running app's version.
#[derive(Clone, Copy, Debug, PartialEq, Eq, Structural)]
pub enum VersionCheck {
    /// Nothing was stored yet; the app's version has been recorded.
    Fresh,
    /// Stored and running versions agree.
    Match,
    /// The stored data was written by an older app and needs migration.
    StorageOlder,
    /// The stored data was written by a newer app; the app must stop.
    StorageNewer,
}

/// Numeric (major, minor, patch) order on versions.
pub open spec fn version_lt(a: Version, b: Version) -> bool {
    a.major < b.major || (a.major == b.major && (a.minor < b.minor || (a.minor == b.minor
        && a.patch < b.patch)))
}

impl Version {
    /// Strictly-less comparison in (major, minor, patch) order.
    pub fn lt(&self, other: &Version) -> (r: bool)
        ensures
            r == version_lt(*self, *other),
    {
        self.major < other.major || (self.major == other.major && (self.minor < other.minor
            || (self.minor == other.minor && self.patch < other.patch)))
    }
}

/// Identifies a model by its `namespace/model-name` string; ordered by
/// string comparison.
#[derive(Debug, PartialEq, Eq, Hash)]
pub struct ModelId(pub String);

impl Clone for ModelId {
    fn clone(&self) -> (r: Self)
        ensures
            r == *self,
    {
        ModelId(self.0.clone())
    }
}

impl ModelId {
    /// A model id holding the given name.
    pub fn from_name(value: &str) -> (r: ModelId)
        ensures
            r.0@ == value@,
    {
        ModelId(value.to_owned())
    }

    /// Strictly-less comparison in the id's total order: code-point order
    /// on the name.
    pub fn lt(&self, other: &ModelId) -> (r: bool)
        ensures
            r == crate::utils::seq_lt(self.0@, other.0@),
    {
        crate::utils::str_lt(self.0.as_str(), other.0.as_str())
    }

    /// The address of the model's page on the hub that serves it.
    pub fn url(&self) -> (r: String)
        ensures
            r@ == "https://huggingface.co/"@ + self.0@,
    {
        let mut s = "https://huggingface.co/".to_owned();
        s.append(self.0.as_str());
        s
    }
}

/// How a message history is serialized into one prompt string.
#[derive(Clone, Copy, Debug, PartialEq, Eq, Hash, Structural)]
pub enum ChatTemplate {
    /// No templating: messages are concatenated line by line.
    Plain,
    Instruct,
    ChatML,
}

impl Default for ChatTemplate {
    fn default() -> (r: Self)
        ensures
            r == ChatTemplate::Plain,
    {
        ChatTemplate::Plain
    }
}

/// A configured model: its id, an optional display name, the template its
/// prompts use, and whether it streams its responses.
#[derive(Debug, PartialEq)]
pub struct Model {
    pub model_id: ModelId,
    pub name: Option<String>,
    pub chat_template: ChatTemplate,
    pub stream: bool,
}

impl Clone for Model {
    fn clone(&self) -> (r: Self)
        ensures
            r == *self,
    {
        Model {
            model_id: self.model_id.clone(),
            name: self.name.clone(),
            chat_template: self.chat_template,
            stream: self.stream,
        }
    }
}

/// The name a model is shown under: its display name if one is set, else
/// its id.
pub open spec fn spec_display_name(m: Model) -> Seq<char> {
    match m.name {
        Some(name) => name@,
        None => m.model_id.0@,
    }
}

impl Model {
    pub fn display_name(&self) -> (r: &str)
        ensures
            r@ == spec_display_name(*self),
    {
        match &self.name {
            Some(name) => name.as_str(),
            None => self.model_id.0.as_str(),
        }
    }
}

/// Whether a model with the given id stands in the list.
pub open spec fn has_model(models: Seq<Model>, id: Seq<char>) -> bool {
    exists|i: int| 0 <= i < models.len() && models[i].model_id.0@ == id
}

/// No two entries of the list share a model id.
pub open spec fn models_unique(models: Seq<Model>) -> bool {
    forall|i: int, j: int|
        0 <= i < j < models.len() ==> models[i].model_id.0@ != models[j].model_id.0@
}

/// The entry of the list holding the given model id.
pub open spec fn spec_model_of(models: Seq<Model>, id: Seq<char>) -> Model {
    models[choose|i: int| 0 <= i < models.len() && models[i].model_id.0@ == id]
}

/// Under unique ids, any listed model is the one `spec_model_of` names for
/// its id.
pub proof fn lemma_model_of(models: Seq<Model>, m: Model)
    requires
        models_unique(models),
        models.contains(m),
    ensures
        has_model(models, m.model_id.0@),
        spec_model_of(models, m.model_id.0@) == m,
{
    let i = choose|i: int| 0 <= i < models.len() && models[i] == m;
    assert(models[i].model_id.0@ == m.model_id.0@);
    let j = choose|j: int| 0 <= j < models.len() && models[j].model_id.0@ == m.model_id.0@;
    if i < j {
        assert(models[i].model_id.0@ != models[j].model_id.0@);
    } else if j < i {
        assert(models[j].model_id.0@ != models[i].model_id.0@);
    }
}

/// The build-time bundle the app ships with: example prompts, the model
/// preselected for new users, and the initial model catalog.
#[derive(Debug)]
pub struct BuildConfig {
    pub examples: Vec<String>,
    pub default_model: ModelId,
    pub models: Vec<Model>,
}

/// The model preselected when nothing was chosen yet.
pub fn default_model(config: &BuildConfig) -> (r: ModelId)
    ensures
        r == config.default_model,
{
    config.default_model.clone()
}

/// The app's persisted settings: the model catalog (a map keyed by model
/// id), the debug toggle and the optional API credential.
#[derive(Debug, PartialEq)]
pub struct Settings {
    pub models: Vec<Model>,
    pub debug_mode: bool,
    pub hf_token: Option<String>,
}

impl Clone for Settings {
    fn clone(&self) -> (r: Self)
        ensures
            r.models@ == self.models@,
            r.debug_mode == self.debug_mode,
            r.hf_token == self.hf_token,
    {
        let models = self.models.clone();
        proof {
            assert(models@ =~= self.models@);
        }
        Settings { models, debug_mode: self.debug_mode, hf_token: self.hf_token.clone() }
    }
}

impl Default for Settings {
    /// An empty catalog, debug off, no credential; the app fills the
    /// catalog from its build configuration on first start.
    fn default() -> (r: Self)
        ensures
            r.models@ == Seq::<Model>::empty(),
            r.debug_mode == false,
            r.hf_token is None,
            r.wf(),
    {
        Settings { models: Vec::new(), debug_mode: false, hf_token: None }
    }
}

impl Settings {
    /// Model ids are unique within the catalog.
    pub open spec fn wf(&self) -> bool {
        models_unique(self.models@)
    }

    /// Looks a model up by its id.
    pub fn get_model(&self, id: &ModelId) -> (r: Option<&Model>)
        ensures
            match r {
                Some(m) => m.model_id.0@ == id.0@ && self.models@.contains(*m),
                None => !has_model(self.models@, id.0@),
            },
    {
        let n = self.models.len();
        let mut i: usize = 0;
        while i < n
            invariant
                i <= n,
                n == self.models@.len(),
                forall|j: int| 0 <= j < i ==> self.models@[j].model_id.0@ != id.0@,
            decreases n - i,
        {
            if self.models[i].model_id.0 == id.0 {
                return Some(&self.models[i]);
            }
            i = i + 1;
        }
        None
    }

    /// The index of the entry with the given id, if one is there.
    fn position_of(models: &Vec<Model>, id: &String) -> (r: Option<usize>)
        ensures
            match r {
                Some(i) => i < models@.len() && models@[i as int].model_id.0@ == id@,
                None => !has_model(models@, id@),
            },
    {
        let n = models.len();
        let mut i: usize = 0;
        while i < n
            invariant
                i <= n,
                forall|j: int| 0 <= j < i ==> models@[j].model_id.0@ != id@,
            decreases n - i,
        {
            if models[i].model_id.0 == *id {
                return Some(i);
            }
            i = i + 1;
        }
        None
    }

    /// Adds a model to the catalog, replacing any entry with the same id.
    pub fn insert_model(&mut self, model: Model)
        requires
            old(self).wf(),
        ensures
            final(self).wf(),
            final(self).debug_mode == old(self).debug_mode,
            final(self).hf_token == old(self).hf_token,
            final(self).models@.contains(model),
            forall|m: Model|
                old(self).models@.contains(m) && m.model_id.0@ != model.model_id.0@
                    ==> final(self).models@.contains(m),
            forall|m: Model|
                final(self).models@.contains(m)
                    ==> m == model || (old(self).models@.contains(m) && m.model_id.0@
                    != model.model_id.0@),
            forall|id: Seq<char>|
                has_model(final(self).models@, id) <==> (has_model(old(self).models@, id)
                    || id == model.model_id.0@),
            !has_model(old(self).models@, model.model_id.0@) ==> final(self).models@ == old(self).models@.push(model),
    {
        let ghost before = self.models@;
        match Self::position_of(&self.models, &model.model_id.0) {
            Some(i) => {
                self.models.set(i, model);
                proof {
                    assert(self.models@.contains(model)) by {
                        assert(self.models@[i as int] == model);
                    }
                    assert forall|m: Model|
                        before.contains(m) && m.model_id.0@
                            != model.model_id.0@ implies #[trigger] self.models@.contains(m) by {
                        let k = choose|k: int| 0 <= k < before.len() && before[k] == m;
                        assert(k != i);
                        assert(self.models@[k] == m);
                    }
                    assert forall|m: Model| self.models@.contains(m) implies m == model || (
                    before.contains(m) && m.model_id.0@ != model.model_id.0@) by {
                        let k = choose|k: int| 0 <= k < self.models@.len() && self.models@[k] == m;
                        if k != i {
                            assert(before[k] == m);
                            assert(before[k].model_id.0@ != before[i as int].model_id.0@);
                        }
                    }
                    assert forall|id: Seq<char>| has_model(self.models@, id) implies (has_model(
                        before,
                        id,
                    ) || id == model.model_id.0@) by {
                        let k = choose|k: int|
                            0 <= k < self.models@.len() && (#[trigger] self.models@[k]).model_id.0@
                                == id;
                        if k != i {
                            assert(before[k].model_id.0@ == id);
                        }
                    }
                    assert forall|id: Seq<char>| has_model(before, id) implies has_model(
                        self.models@,
                        id,
                    ) by {
                        let k = choose|k: int|
                            0 <= k < before.len() && (#[trigger] before[k]).model_id.0@ == id;
                        if k == i {
                            assert(self.models@[k].model_id.0@ == model.model_id.0@);
                            assert(before[k].model_id.0@ == model.model_id.0@);
                        } else {
                            assert(self.models@[k].model_id.0@ == id);
                        }
                    }
                }
            }
            None => {
                self.models.push(model);
                proof {
                    assert(self.models@.contains(model)) by {
                        assert(self.models@[before.len() as int] == model);
                    }
                    assert forall|m: Model| before.contains(m) implies #[trigger] self.models@
                        .contains(m) by {
                        let k = choose|k: int| 0 <= k < before.len() && before[k] == m;
                        assert(self.models@[k] == m);
                    }
                    assert forall|m: Model| self.models@.contains(m) implies m == model
                        || before.contains(m) by {
                        let k = choose|k: int| 0 <= k < self.models@.len() && self.models@[k] == m;
                        if k < before.len() {
                            assert(before[k] == m);
                        }
                    }
                    assert forall|m: Model| before.contains(m) implies m.model_id.0@
                        != model.model_id.0@ by {
                        let k = choose|k: int| 0 <= k < before.len() && before[k] == m;
                        assert(!has_model(before, before[k].model_id.0@) ==> false);
                    }
                    assert forall|id: Seq<char>| has_model(self.models@, id) implies (has_model(
                        before,
                        id,
                    ) || id == model.model_id.0@) by {
                        let k = choose|k: int|
                            0 <= k < self.models@.len() && (#[trigger] self.models@[k]).model_id.0@
                                == id;
                        if k < before.len() {
                            assert(before[k].model_id.0@ == id);
                        }
                    }
                    assert forall|id: Seq<char>| has_model(before, id) implies has_model(
                        self.models@,
                        id,
                    ) by {
                        let k = choose|k: int|
                            0 <= k < before.len() && (#[trigger] before[k]).model_id.0@ == id;
                        assert(self.models@[k].model_id.0@ == id);
                    }
                }
            }
        }
    }

    /// Removes the model with the given id, returning it when it was there.
    pub fn remove_model(&mut self, id: &ModelId) -> (r: Option<Model>)
        requires
            old(self).wf(),
        ensures
            final(self).wf(),
            final(self).debug_mode == old(self).debug_mode,
            final(self).hf_token == old(self).hf_token,
            !has_model(final(self).models@, id.0@),
            match r {
                Some(m) => m.model_id.0@ == id.0@ && (exists|i: int|
                    0 <= i < old(self).models@.len() && old(self).models@[i] == m && final(self).models@ == old(self).models@.remove(i)),
                None => !has_model(old(self).models@, id.0@) && final(self).models@ == old(self).models@,
            },
    {
        let ghost before = self.models@;
        match Self::position_of(&self.models, &id.0) {
            Some(i) => {
                let m = self.models.remove(i);
                proof {
                    before.remove_ensures(i as int);
                    assert forall|j: int|
                        0 <= j < self.models@.len() implies (
                    #[trigger] self.models@[j]).model_id.0@ != id.0@ by {
                        if j < i {
                            assert(self.models@[j] == before[j]);
                            assert(before[j].model_id.0@ != before[i as int].model_id.0@);
                        } else {
                            assert(self.models@[j] == before[j + 1]);
                            assert(before[j + 1].model_id.0@ != before[i as int].model_id.0@);
                        }
                    }
                }
                Some(m)
            }
            None => None,
        }
    }

    /// Replaces the catalog with the build configuration's model list; on a
    /// duplicated id the later entry wins.
    pub fn reset_models(&mut self, config: &BuildConfig)
        ensures
            final(self).wf(),
            final(self).debug_mode == old(self).debug_mode,
            final(self).hf_token == old(self).hf_token,
            forall|m: Model|
                final(self).models@.contains(m) ==> config.models@.contains(m),
            forall|id: Seq<char>|
                has_model(final(self).models@, id) <==> has_model(config.models@, id),
            config.models@.len() > 0 ==> final(self).models@.len() > 0,
    {
        let ghost debug_mode = self.debug_mode;
        let ghost hf_token = self.hf_token;
        self.models = Vec::new();
        let n = config.models.len();
        let mut k: usize = 0;
        while k < n
            invariant
                k <= n,
                n == config.models@.len(),
                self.wf(),
                self.debug_mode == debug_mode,
                self.hf_token == hf_token,
                forall|m: Model| self.models@.contains(m) ==> config.models@.contains(m),
                forall|id: Seq<char>|
                    has_model(self.models@, id) <==> has_model(config.models@.take(k as int), id),
            decreases n - k,
        {
            let model = config.models[k].clone();
            proof {
                assert(config.models@.contains(config.models@[k as int]));
            }
            self.insert_model(model);
            proof {
                assert(forall|id: Seq<char>|
                    has_model(config.models@.take(k as int), id)
                        ==> has_model(#[trigger] config.models@.take(k + 1), id)) by {
                    assert forall|id: Seq<char>|
                        has_model(config.models@.take(k as int), id) implies has_model(
                        #[trigger] config.models@.take(k + 1),
                        id,
                    ) by {
                        let j = choose|j: int|
                            0 <= j < k && (#[trigger] config.models@.take(k as int)[j]).model_id.0@
                                == id;
                        assert(config.models@.take(k + 1)[j].model_id.0@ == id);
                    }
                }
                assert(forall|id: Seq<char>|
                    has_model(#[trigger] config.models@.take(k + 1), id) && id
                        != config.models@[k as int].model_id.0@ ==> has_model(
                        config.models@.take(k as int),
                        id,
                    )) by {
                    assert forall|id: Seq<char>|
                        has_model(#[trigger] config.models@.take(k + 1), id) && id
                            != config.models@[k as int].model_id.0@ implies has_model(
                        config.models@.take(k as int),
                        id,
                    ) by {
                        let j = choose|j: int|
                            0 <= j < k + 1 && (#[trigger] config.models@.take(k + 1)[j]).model_id.0@
                                == id;
                        assert(j < k);
                        assert(config.models@.take(k as int)[j].model_id.0@ == id);
                    }
                }
                assert(config.models@.take(k + 1)[k as int] == config.models@[k as int]);
                assert(has_model(config.models@.take(k + 1), model.model_id.0@));
            }
            k = k + 1;
        }
        proof {
            assert(config.models@.take(n as int) =~= config.models@);
            if config.models@.len() > 0 {
                assert(has_model(config.models@, config.models@[0].model_id.0@));
                assert(has_model(self.models@, config.models@[0].model_id.0@));
            }
        }
    }
}

/// The landing view's draft: the chosen model and the composition state of
/// a conversation that has not started yet.
#[derive(Debug, PartialEq)]
pub struct Home {
    pub selected_model: ModelId,
    pub conversation_parameters: ConversationParameters,
    pub user_message: String,
}

impl Clone for Home {
    fn clone(&self) -> (r: Self)
        ensures
            r == *self,
    {
        Home {
            selected_model: self.selected_model.clone(),
            conversation_parameters: self.conversation_parameters.clone(),
            user_message: self.user_message.clone(),
        }
    }
}

impl Home {
    /// The draft a new user starts from: the build configuration's default
    /// model, no parameters, an empty input.
    pub fn initial(config: &BuildConfig) -> (r: Home)
        ensures
            r.selected_model == config.default_model,
            r.conversation_parameters == ConversationParameters::spec_default(),
            r.user_message@ == Seq::<char>::empty(),
    {
        Home {
            selected_model: config.default_model.clone(),
            conversation_parameters: Default::default(),
            user_message: String::new(),
        }
    }
}

/// Whether a credential has the expected `hf_` shape: the prefix plus at
/// least one further character.
pub open spec fn valid_hf_token(s: Seq<char>) -> bool {
    s.len() > 3 && s[0] == 'h' && s[1] == 'f' && s[2] == '_'
}

/// How the credential field is judged by the settings form.
#[derive(Clone, Copy, Debug, PartialEq, Eq, Structural)]
pub enum HfTokenState {
    /// No credential entered.
    Unset,
    /// The entered credential has the expected shape.
    Valid,
    /// The entered credential cannot be a real one.
    Invalid,
}

impl HfTokenState {
    /// Judges an optional credential.
    pub fn new(hf_token: &Option<String>) -> (r: HfTokenState)
        ensures
            match hf_token {
                Some(t) => r == (if valid_hf_token(t@) {
                    HfTokenState::Valid
                } else {
                    HfTokenState::Invalid
                }),
                None => r == HfTokenState::Unset,
            },
    {
        match hf_token {
            Some(value) => {
                let n = value.as_str().unicode_len();
                if n > 3 && value.as_str().get_char(0) == 'h' && value.as_str().get_char(1) == 'f'
                    && value.as_str().get_char(2) == '_' {
                    HfTokenState::Valid
                } else {
                    HfTokenState::Invalid
                }
            }
            None => HfTokenState::Unset,
        }
    }
}

/// Who authored a message.
#[derive(Clone, Copy, Debug, PartialEq, Eq, Structural)]
pub enum Role {
    Assistant,
    User,
}

/// One chat message. A user message is complete when created; an assistant
/// message starts as a seed and grows while the response streams in.
#[derive(Debug, PartialEq)]
pub struct Message {
    pub id: MessageId,
    pub role: Role,
    pub text: String,
    pub timestamp: Timestamp,
}

impl Clone for Message {
    fn clone(&self) -> (r: Self)
        ensures
            r == *self,
    {
        Message {
            id: self.id,
            role: self.role,
            text: self.text.clone(),
            timestamp: self.timestamp,
        }
    }
}

/// One conversation: the model it talks to, its titling and timestamps, the
/// user's draft input, and the ids of its messages in chronological order.
#[derive(Debug, PartialEq)]
pub struct Conversation {
    pub id: ConversationId,
    pub model_id: Option<ModelId>,
    pub title: Option<String>,
    pub timestamp_started: Timestamp,
    pub timestamp_last_interaction: Timestamp,
    pub conversation_parameters: ConversationParameters,
    pub user_message: String,
    pub messages: Vec<MessageId>,
}

impl Clone for Conversation {
    fn clone(&self) -> (r: Self)
        ensures
            r.id == self.id,
            r.model_id == self.model_id,
            r.title == self.title,
            r.timestamp_started == self.timestamp_started,
            r.timestamp_last_interaction == self.timestamp_last_interaction,
            r.conversation_parameters == self.conversation_parameters,
            r.user_message == self.user_message,
            r.messages@ == self.messages@,
    {
        let messages = self.messages.clone();
        proof {
            assert(messages@ =~= self.messages@);
        }
        Conversation {
            id: self.id,
            model_id: self.model_id.clone(),
            title: self.title.clone(),
            timestamp_started: self.timestamp_started,
            timestamp_last_interaction: self.timestamp_last_interaction,
            conversation_parameters: self.conversation_parameters.clone(),
            user_message: self.user_message.clone(),
            messages,
        }
    }
}

} // verus!
