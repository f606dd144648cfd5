use vstd::prelude::*;

use crate::ids::{uuid_chars, uuid_string, ConversationId, MessageId};
use crate::state::{Conversation, Home, Message, Model, Settings, Version};

verus! {

/// Whether an entry with the given key stands in the list.
pub open spec fn has_key<V>(entries: Seq<(u128, V)>, key: u128) -> bool {
    exists|i: int| 0 <= i < entries.len() && entries[i].0 == key
}

/// The index of the entry with the given key.
pub open spec fn key_index<V>(entries: Seq<(u128, V)>, key: u128) -> int {
    choose|i: int| 0 <= i < entries.len() && entries[i].0 == key
}

/// No two entries share a key.
pub open spec fn keys_unique<V>(entries: Seq<(u128, V)>) -> bool {
    forall|i: int, j: int| 0 <= i < j < entries.len() ==> entries[i].0 != entries[j].0
}

/// The value stored under a key, if any.
pub open spec fn spec_get<V>(entries: Seq<(u128, V)>, key: u128) -> Option<V> {
    if has_key(entries, key) {
        Some(entries[key_index(entries, key)].1)
    } else {
        None
    }
}

/// Under unique keys, an entry at index `i` pins what `spec_get` returns
/// for its key.
pub proof fn lemma_get_at_index<V>(entries: Seq<(u128, V)>, i: int)
    requires
        keys_unique(entries),
        0 <= i < entries.len(),
    ensures
        has_key(entries, entries[i].0),
        key_index(entries, entries[i].0) == i,
        spec_get(entries, entries[i].0) == Some(entries[i].1),
{
    let key = entries[i].0;
    assert(has_key(entries, key));
    let j = key_index(entries, key);
    assert(0 <= j < entries.len() && entries[j].0 == key);
    if j < i {
        assert(entries[j].0 != entries[i].0);
    } else if i < j {
        assert(entries[i].0 != entries[j].0);
    }
}

/// One keyed table of the persistent store: values of one entity kind,
/// each under its 128-bit id.
#[derive(Debug)]
pub struct KeyedStore<V> {
    entries: Vec<(u128, V)>,
}

impl<V> View for KeyedStore<V> {
    type V = Seq<(u128, V)>;

    closed spec fn view(&self) -> Seq<(u128, V)> {
        self.entries@
    }
}

impl<V> KeyedStore<V> {
    /// Keys are unique.
    pub open spec fn wf(&self) -> bool {
        keys_unique(self@)
    }

    /// An empty table.
    pub fn new() -> (r: Self)
        ensures
            r.wf(),
            r@ == Seq::<(u128, V)>::empty(),
    {
        KeyedStore { entries: Vec::new() }
    }

    /// The index of the entry under the key, if one is there.
    fn position_of(&self, key: u128) -> (r: Option<usize>)
        ensures
            match r {
                Some(i) => i < self@.len() && self@[i as int].0 == key,
                None => !has_key(self@, key),
            },
    {
        let n = self.entries.len();
        let mut i: usize = 0;
        while i < n
            invariant
                i <= n,
                forall|j: int| 0 <= j < i ==> self@[j].0 != key,
            decreases n - i,
        {
            if self.entries[i].0 == key {
                return Some(i);
            }
            i = i + 1;
        }
        None
    }

    /// Reads the value under a key.
    pub fn get(&self, key: u128) -> (r: Option<&V>)
        requires
            self.wf(),
        ensures
            match r {
                Some(v) => spec_get(self@, key) == Some(*v),
                None => spec_get(self@, key) is None,
            },
    {
        match self.position_of(key) {
            Some(i) => {
                proof {
                    lemma_get_at_index(self@, i as int);
                }
                Some(&self.entries[i].1)
            }
            None => None,
        }
    }

    /// Writes the value under a key, replacing what was there.
    pub fn set(&mut self, key: u128, value: V)
        requires
            old(self).wf(),
        ensures
            final(self).wf(),
            spec_get(final(self)@, key) == Some(value),
            forall|k: u128| k != key ==> spec_get(final(self)@, k) == spec_get(old(self)@, k),
            final(self)@ == spec_set(old(self)@, key, value),
            final(self)@.len() == old(self)@.len() + (if has_key(old(self)@, key) {
                0int
            } else {
                1int
            }),
    {
        let ghost before = self@;
        match self.position_of(key) {
            Some(i) => {
                self.entries.set(i, (key, value));
                proof {
                    lemma_get_at_index(before, i as int);
                    lemma_get_at_index(self@, i as int);
                    assert forall|k: u128| k != key implies spec_get(self@, k) == spec_get(
                        before,
                        k,
                    ) by {
                        lemma_preserved_elsewhere(before, self@, i as int, k);
                    }
                }
            }
            None => {
                self.entries.push((key, value));
                proof {
                    assert forall|i: int, j: int|
                        0 <= i < j < self@.len() implies self@[i].0 != self@[j].0 by {
                        if j < before.len() {
                        } else {
                            assert(self@[i] == before[i]);
                            assert(has_key(before, before[i].0));
                        }
                    }
                    lemma_get_at_index(self@, before.len() as int);
                    assert forall|k: u128| k != key implies spec_get(self@, k) == spec_get(
                        before,
                        k,
                    ) by {
                        lemma_preserved_elsewhere(before, self@, before.len() as int, k);
                    }
                }
            }
        }
    }

    /// Removes the value under a key; absent keys are left as they are.
    pub fn delete(&mut self, key: u128)
        requires
            old(self).wf(),
        ensures
            final(self).wf(),
            spec_get(final(self)@, key) is None,
            forall|k: u128| k != key ==> spec_get(final(self)@, k) == spec_get(old(self)@, k),
            !has_key(old(self)@, key) ==> final(self)@ == old(self)@,
    {
        let ghost before = self@;
        match self.position_of(key) {
            Some(i) => {
                let _ = self.entries.remove(i);
                proof {
                    before.remove_ensures(i as int);
                    assert forall|j: int| 0 <= j < self@.len() implies (#[trigger] self@[j]).0
                        != key by {
                        if j < i {
                            assert(self@[j] == before[j]);
                            assert(before[j].0 != before[i as int].0);
                        } else {
                            assert(self@[j] == before[j + 1]);
                            assert(before[i as int].0 != before[j + 1].0);
                        }
                    }
                    assert forall|k: u128| k != key implies spec_get(self@, k) == spec_get(
                        before,
                        k,
                    ) by {
                        lemma_removed_preserves(before, self@, i as int, k);
                    }
                }
            }
            None => {}
        }
    }

    /// Drops every entry.
    pub fn clear(&mut self)
        ensures
            final(self).wf(),
            final(self)@ == Seq::<(u128, V)>::empty(),
    {
        self.entries.clear();
    }

    /// How many entries the table holds.
    pub fn len(&self) -> (r: usize)
        ensures
            r == self@.len(),
    {
        self.entries.len()
    }
}

/// What one write leaves in a unique-keyed table: the entry under the key
/// replaced in place, or appended when the key was absent.
pub open spec fn spec_set<V>(entries: Seq<(u128, V)>, key: u128, value: V) -> Seq<(u128, V)> {
    if has_key(entries, key) {
        entries.update(key_index(entries, key), (key, value))
    } else {
        entries.push((key, value))
    }
}

/// Round trip: after one write, reading the written key yields exactly the
/// written value, and reading any other key yields what it held before.
pub proof fn lemma_store_round_trip<V>(entries: Seq<(u128, V)>, key: u128, value: V)
    requires
        keys_unique(entries),
    ensures
        keys_unique(spec_set(entries, key, value)),
        spec_get(spec_set(entries, key, value), key) == Some(value),
        forall|k: u128|
            k != key ==> spec_get(spec_set(entries, key, value), k) == spec_get(entries, k),
{
    let after = spec_set(entries, key, value);
    if has_key(entries, key) {
        let i = key_index(entries, key);
        assert(0 <= i < entries.len() && entries[i].0 == key);
        assert(keys_unique(after));
        lemma_get_at_index(after, i);
        assert forall|k: u128| k != key implies spec_get(after, k) == spec_get(entries, k) by {
            lemma_preserved_elsewhere(entries, after, i, k);
        }
    } else {
        assert forall|i: int, j: int|
            0 <= i < j < after.len() implies after[i].0 != after[j].0 by {
            if j < entries.len() {
            } else {
                assert(after[i] == entries[i]);
                assert(has_key(entries, entries[i].0));
            }
        }
        lemma_get_at_index(after, entries.len() as int);
        assert forall|k: u128| k != key implies spec_get(after, k) == spec_get(entries, k) by {
            lemma_preserved_elsewhere(entries, after, entries.len() as int, k);
        }
    }
}

/// The structured name of one stored value: a kind plus, for per-entity
/// values, the entity's id.
#[derive(Clone, Copy, Debug, PartialEq)]
pub enum StorageKey {
    Version,
    Home,
    Settings,
    Conversations,
    Conversation(ConversationId),
    Message(MessageId),
}

/// The flat string name a key maps to.
pub open spec fn key_chars(key: StorageKey) -> Seq<char> {
    match key {
        StorageKey::Version => "version"@,
        StorageKey::Home => "home"@,
        StorageKey::Settings => "settings"@,
        StorageKey::Conversations => "conversations"@,
        StorageKey::Conversation(id) => "conversation-"@ + uuid_chars(id.0),
        StorageKey::Message(id) => "message-"@ + uuid_chars(id.0),
    }
}

impl StorageKey {
    /// Renders the flat string name the value is stored under.
    pub fn as_str(&self) -> (r: String)
        ensures
            r@ == key_chars(*self),
    {
        match self {
            StorageKey::Version => "version".to_owned(),
            StorageKey::Home => "home".to_owned(),
            StorageKey::Settings => "settings".to_owned(),
            StorageKey::Conversations => "conversations".to_owned(),
            StorageKey::Conversation(id) => {
                let mut s = "conversation-".to_owned();
                let tail = uuid_string(id.0);
                s.append(tail.as_str());
                s
            }
            StorageKey::Message(id) => {
                let mut s = "message-".to_owned();
                let tail = uuid_string(id.0);
                s.append(tail.as_str());
                s
            }
        }
    }
}

/// Distinct storage keys render to distinct flat names: no two stored
/// values ever share a slot of the string namespace.
pub proof fn lemma_key_chars_injective(k1: StorageKey, k2: StorageKey)
    requires
        key_chars(k1) == key_chars(k2),
    ensures
        k1 == k2,
{
    reveal_strlit("version");
    reveal_strlit("home");
    reveal_strlit("settings");
    reveal_strlit("conversations");
    reveal_strlit("conversation-");
    reveal_strlit("message-");
    assert(match k1 {
        StorageKey::Version => key_chars(k1).len() == 7,
        StorageKey::Home => key_chars(k1).len() == 4,
        StorageKey::Settings => key_chars(k1).len() == 8,
        StorageKey::Conversations => key_chars(k1).len() == 13,
        StorageKey::Conversation(_) => key_chars(k1).len() == 49,
        StorageKey::Message(_) => key_chars(k1).len() == 44,
    });
    assert(match k2 {
        StorageKey::Version => key_chars(k2).len() == 7,
        StorageKey::Home => key_chars(k2).len() == 4,
        StorageKey::Settings => key_chars(k2).len() == 8,
        StorageKey::Conversations => key_chars(k2).len() == 13,
        StorageKey::Conversation(_) => key_chars(k2).len() == 49,
        StorageKey::Message(_) => key_chars(k2).len() == 44,
    });
    match (k1, k2) {
        (StorageKey::Conversation(a), StorageKey::Conversation(b)) => {
            assert(uuid_chars(a.0) =~= uuid_chars(b.0)) by {
                assert forall|i: int| 0 <= i < 36 implies uuid_chars(a.0)[i] == uuid_chars(b.0)[i] by {
                    assert(key_chars(k1)[13 + i] == uuid_chars(a.0)[i]);
                    assert(key_chars(k2)[13 + i] == uuid_chars(b.0)[i]);
                }
            }
            crate::ids::lemma_uuid_chars_injective(a.0, b.0);
        }
        (StorageKey::Message(a), StorageKey::Message(b)) => {
            assert(uuid_chars(a.0) =~= uuid_chars(b.0)) by {
                assert forall|i: int| 0 <= i < 36 implies uuid_chars(a.0)[i] == uuid_chars(b.0)[i] by {
                    assert(key_chars(k1)[8 + i] == uuid_chars(a.0)[i]);
                    assert(key_chars(k2)[8 + i] == uuid_chars(b.0)[i]);
                }
            }
            crate::ids::lemma_uuid_chars_injective(a.0, b.0);
        }
        _ => {}
    }
}

/// Whether any of the listed message ids has the given key value.
pub open spec fn lists_message_key(ids: Seq<MessageId>, k: u128) -> bool {
    exists|j: int| 0 <= j < ids.len() && ids[j].0 == k
}

/// The whole persistent store: one slot per singleton entity and one keyed
/// table per entity kind, as the flat string namespace groups them.
#[derive(Debug)]
pub struct Store {
    pub version: Option<Version>,
    pub settings: Option<Settings>,
    pub home: Option<Home>,
    pub conversation_index: Vec<ConversationId>,
    pub conversations: KeyedStore<Conversation>,
    pub messages: KeyedStore<Message>,
}

impl Store {
    /// Tables are unique-keyed, and the conversation index lists no id
    /// twice.
    pub open spec fn wf(&self) -> bool {
        &&& self.conversations.wf()
        &&& self.messages.wf()
        &&& forall|i: int, j: int|
            0 <= i < j < self.conversation_index@.len() ==> self.conversation_index@[i]
                != self.conversation_index@[j]
    }

    /// An empty store.
    pub fn new() -> (r: Store)
        ensures
            r.wf(),
            r.version is None,
            r.settings is None,
            r.home is None,
            r.conversation_index@ == Seq::<ConversationId>::empty(),
            r.conversations@ == Seq::<(u128, Conversation)>::empty(),
            r.messages@ == Seq::<(u128, Message)>::empty(),
    {
        Store {
            version: None,
            settings: None,
            home: None,
            conversation_index: Vec::new(),
            conversations: KeyedStore::new(),
            messages: KeyedStore::new(),
        }
    }

    /// Drops everything the store holds.
    pub fn clear_all(&mut self)
        ensures
            final(self).wf(),
            final(self).version is None,
            final(self).settings is None,
            final(self).home is None,
            final(self).conversation_index@ == Seq::<ConversationId>::empty(),
            final(self).conversations@ == Seq::<(u128, Conversation)>::empty(),
            final(self).messages@ == Seq::<(u128, Message)>::empty(),
    {
        self.version = None;
        self.settings = None;
        self.home = None;
        self.conversation_index.clear();
        self.conversations.clear();
        self.messages.clear();
    }

    /// Whether the conversation index lists the id.
    pub fn index_contains(&self, id: ConversationId) -> (r: bool)
        ensures
            r == self.conversation_index@.contains(id),
    {
        let n = self.conversation_index.len();
        let mut i: usize = 0;
        while i < n
            invariant
                i <= n,
                forall|j: int| 0 <= j < i ==> self.conversation_index@[j] != id,
            decreases n - i,
        {
            if self.conversation_index[i] == id {
                return true;
            }
            i = i + 1;
        }
        false
    }

    /// Adds the id to the conversation index; listed ids stay listed once.
    pub fn index_insert(&mut self, id: ConversationId)
        requires
            old(self).wf(),
        ensures
            final(self).wf(),
            final(self).version == old(self).version,
            final(self).settings == old(self).settings,
            final(self).home == old(self).home,
            final(self).conversations@ == old(self).conversations@,
            final(self).messages@ == old(self).messages@,
            old(self).conversation_index@.contains(id) ==> final(self).conversation_index@ == old(
                self,
            ).conversation_index@,
            !old(self).conversation_index@.contains(id) ==> final(self).conversation_index@ == old(
                self,
            ).conversation_index@.push(id),
            final(self).conversation_index@.contains(id),
    {
        if !self.index_contains(id) {
            self.conversation_index.push(id);
            proof {
                assert(self.conversation_index@.last() == id);
            }
        }
    }

    /// Removes the id from the conversation index; absent ids are left as
    /// they are.
    pub fn index_remove(&mut self, id: ConversationId)
        requires
            old(self).wf(),
        ensures
            final(self).wf(),
            final(self).version == old(self).version,
            final(self).settings == old(self).settings,
            final(self).home == old(self).home,
            final(self).conversations@ == old(self).conversations@,
            final(self).messages@ == old(self).messages@,
            !final(self).conversation_index@.contains(id),
            forall|c: ConversationId|
                c != id ==> (final(self).conversation_index@.contains(c) <==> old(
                    self,
                ).conversation_index@.contains(c)),
            !old(self).conversation_index@.contains(id) ==> final(self).conversation_index@ == old(
                self,
            ).conversation_index@,
    {
        let ghost before = self.conversation_index@;
        let n = self.conversation_index.len();
        let mut i: usize = 0;
        while i < n
            invariant
                i <= n,
                self.conversation_index@ == before,
                self.version == old(self).version,
                self.settings == old(self).settings,
                self.home == old(self).home,
                self.conversations@ == old(self).conversations@,
                self.messages@ == old(self).messages@,
                forall|j: int| 0 <= j < i ==> before[j] != id,
            decreases n - i,
        {
            if self.conversation_index[i] == id {
                let _ = self.conversation_index.remove(i);
                proof {
                    before.remove_ensures(i as int);
                    assert forall|p: int, q: int|
                        0 <= p < q < self.conversation_index@.len() implies self
                        .conversation_index@[p] != self.conversation_index@[q] by {
                        let p0 = if p < i { p } else { p + 1 };
                        let q0 = if q < i { q } else { q + 1 };
                        assert(self.conversation_index@[p] == before[p0]);
                        assert(self.conversation_index@[q] == before[q0]);
                        assert(before[p0] != before[q0]);
                    }
                    assert forall|j: int|
                        0 <= j < self.conversation_index@.len() implies #[trigger] self
                        .conversation_index@[j] != id by {
                        if j < i {
                            assert(self.conversation_index@[j] == before[j]);
                        } else {
                            assert(self.conversation_index@[j] == before[j + 1]);
                            assert(before[i as int] != before[j + 1]);
                        }
                    }
                    assert forall|c: ConversationId|
                        c != id && before.contains(c) implies #[trigger] self
                        .conversation_index@.contains(c) by {
                        let j = choose|j: int| 0 <= j < before.len() && before[j] == c;
                        if j < i {
                            assert(self.conversation_index@[j] == c);
                        } else {
                            assert(j > i);
                            assert(self.conversation_index@[j - 1] == c);
                        }
                    }
                    assert forall|c: ConversationId|
                        c != id && self.conversation_index@.contains(c) implies #[trigger] before
                        .contains(c) by {
                        let j = choose|j: int|
                            0 <= j < self.conversation_index@.len()
                                && self.conversation_index@[j] == c;
                        if j < i {
                            assert(before[j] == c);
                        } else {
                            assert(before[j + 1] == c);
                        }
                    }
                }
                return ;
            }
            i = i + 1;
        }
        proof {
            assert forall|c: ConversationId|
                !before.contains(id) && c != id && before.contains(c) implies #[trigger] self
                .conversation_index@.contains(c) by {}
        }
    }

    /// Reads the stored version, if one was written.
    pub fn get_version(&self) -> (r: Option<&Version>)
        ensures
            match r {
                Some(v) => self.version == Some(*v),
                None => self.version is None,
            },
    {
        self.version.as_ref()
    }

    /// Records the version.
    pub fn set_version(&mut self, version: Version)
        ensures
            final(self).version == Some(version),
            final(self).settings == old(self).settings,
            final(self).home == old(self).home,
            final(self).conversation_index@ == old(self).conversation_index@,
            final(self).conversations@ == old(self).conversations@,
            final(self).messages@ == old(self).messages@,
    {
        self.version = Some(version);
    }

    /// Reads the stored settings, if any were written.
    pub fn get_settings(&self) -> (r: Option<&Settings>)
        ensures
            match r {
                Some(v) => self.settings == Some(*v),
                None => self.settings is None,
            },
    {
        self.settings.as_ref()
    }

    /// Reads the settings as the storage boundary hands them out: the
    /// stored value, or the type's default when nothing was written.
    pub fn settings_or_default(&self) -> (r: Settings)
        ensures
            match self.settings {
                Some(s) => r.models@ == s.models@ && r.debug_mode == s.debug_mode && r.hf_token
                    == s.hf_token,
                None => r.models@ == Seq::<Model>::empty() && r.debug_mode == false && r.hf_token
                    is None,
            },
    {
        match self.settings.as_ref() {
            Some(s) => s.clone(),
            None => Settings::default(),
        }
    }

    /// Stores the settings.
    pub fn set_settings(&mut self, settings: Settings)
        ensures
            final(self).settings == Some(settings),
            final(self).version == old(self).version,
            final(self).home == old(self).home,
            final(self).conversation_index@ == old(self).conversation_index@,
            final(self).conversations@ == old(self).conversations@,
            final(self).messages@ == old(self).messages@,
    {
        self.settings = Some(settings);
    }

    /// Reads the stored landing-view draft, if one was written.
    pub fn get_home(&self) -> (r: Option<&Home>)
        ensures
            match r {
                Some(v) => self.home == Some(*v),
                None => self.home is None,
            },
    {
        self.home.as_ref()
    }

    /// Stores the landing-view draft.
    pub fn set_home(&mut self, home: Home)
        ensures
            final(self).home == Some(home),
            final(self).version == old(self).version,
            final(self).settings == old(self).settings,
            final(self).conversation_index@ == old(self).conversation_index@,
            final(self).conversations@ == old(self).conversations@,
            final(self).messages@ == old(self).messages@,
    {
        self.home = Some(home);
    }

    /// Reads a conversation by id.
    pub fn get_conversation(&self, id: ConversationId) -> (r: Option<&Conversation>)
        requires
            self.wf(),
        ensures
            match r {
                Some(c) => spec_get(self.conversations@, id.0) == Some(*c),
                None => spec_get(self.conversations@, id.0) is None,
            },
    {
        self.conversations.get(id.0)
    }

    /// Writes a conversation under its id.
    pub fn set_conversation(&mut self, id: ConversationId, conversation: Conversation)
        requires
            old(self).wf(),
        ensures
            final(self).wf(),
            final(self).version == old(self).version,
            final(self).settings == old(self).settings,
            final(self).home == old(self).home,
            final(self).conversation_index@ == old(self).conversation_index@,
            final(self).messages@ == old(self).messages@,
            spec_get(final(self).conversations@, id.0) == Some(conversation),
            forall|k: u128|
                k != id.0 ==> spec_get(final(self).conversations@, k) == spec_get(
                    old(self).conversations@,
                    k,
                ),
    {
        self.conversations.set(id.0, conversation);
    }

    /// Removes a conversation entity; absent ids are left as they are.
    pub fn remove_conversation(&mut self, id: ConversationId)
        requires
            old(self).wf(),
        ensures
            final(self).wf(),
            final(self).version == old(self).version,
            final(self).settings == old(self).settings,
            final(self).home == old(self).home,
            final(self).conversation_index@ == old(self).conversation_index@,
            final(self).messages@ == old(self).messages@,
            spec_get(final(self).conversations@, id.0) is None,
            forall|k: u128|
                k != id.0 ==> spec_get(final(self).conversations@, k) == spec_get(
                    old(self).conversations@,
                    k,
                ),
            spec_get(old(self).conversations@, id.0) is None ==> final(self).conversations@ == old(
                self,
            ).conversations@,
    {
        proof {
            if spec_get(old(self).conversations@, id.0) is None {
                assert(!has_key(old(self).conversations@, id.0));
            }
        }
        self.conversations.delete(id.0);
    }

    /// Reads a message by id.
    pub fn get_message(&self, id: MessageId) -> (r: Option<&Message>)
        requires
            self.wf(),
        ensures
            match r {
                Some(m) => spec_get(self.messages@, id.0) == Some(*m),
                None => spec_get(self.messages@, id.0) is None,
            },
    {
        self.messages.get(id.0)
    }

    /// Writes a message under its id.
    pub fn set_message(&mut self, id: MessageId, message: Message)
        requires
            old(self).wf(),
        ensures
            final(self).wf(),
            final(self).version == old(self).version,
            final(self).settings == old(self).settings,
            final(self).home == old(self).home,
            final(self).conversation_index@ == old(self).conversation_index@,
            final(self).conversations@ == old(self).conversations@,
            spec_get(final(self).messages@, id.0) == Some(message),
            forall|k: u128|
                k != id.0 ==> spec_get(final(self).messages@, k) == spec_get(
                    old(self).messages@,
                    k,
                ),
    {
        self.messages.set(id.0, message);
    }

    /// Removes a message entity; absent ids are left as they are.
    pub fn remove_message(&mut self, id: MessageId)
        requires
            old(self).wf(),
        ensures
            final(self).wf(),
            final(self).version == old(self).version,
            final(self).settings == old(self).settings,
            final(self).home == old(self).home,
            final(self).conversation_index@ == old(self).conversation_index@,
            final(self).conversations@ == old(self).conversations@,
            spec_get(final(self).messages@, id.0) is None,
            forall|k: u128|
                k != id.0 ==> spec_get(final(self).messages@, k) == spec_get(
                    old(self).messages@,
                    k,
                ),
            spec_get(old(self).messages@, id.0) is None ==> final(self).messages@ == old(
                self,
            ).messages@,
    {
        proof {
            if spec_get(old(self).messages@, id.0) is None {
                assert(!has_key(old(self).messages@, id.0));
            }
        }
        self.messages.delete(id.0);
    }

    /// Deletes a conversation: removes it from the index, drops the entity,
    /// and drops every message it listed, in that order. Deleting an id
    /// that is nowhere to be found changes nothing.
    pub fn delete_conversation(&mut self, id: ConversationId)
        requires
            old(self).wf(),
        ensures
            final(self).wf(),
            final(self).version == old(self).version,
            final(self).settings == old(self).settings,
            final(self).home == old(self).home,
            !final(self).conversation_index@.contains(id),
            forall|c: ConversationId|
                c != id ==> (final(self).conversation_index@.contains(c) <==> old(
                    self,
                ).conversation_index@.contains(c)),
            spec_get(final(self).conversations@, id.0) is None,
            forall|k: u128|
                k != id.0 ==> spec_get(final(self).conversations@, k) == spec_get(
                    old(self).conversations@,
                    k,
                ),
            match spec_get(old(self).conversations@, id.0) {
                Some(c) => {
                    &&& forall|j: int|
                        0 <= j < c.messages@.len() ==> spec_get(
                            final(self).messages@,
                            (#[trigger] c.messages@[j]).0,
                        ) is None
                    &&& forall|k: u128|
                        !lists_message_key(c.messages@, k) ==> spec_get(final(self).messages@, k)
                            == spec_get(old(self).messages@, k)
                },
                None => final(self).messages@ == old(self).messages@,
            },
            (spec_get(old(self).conversations@, id.0) is None && !old(
                self,
            ).conversation_index@.contains(id)) ==> (final(self).conversation_index@ == old(
                self,
            ).conversation_index@ && final(self).conversations@ == old(self).conversations@
                && final(self).messages@ == old(self).messages@),
    {
        self.index_remove(id);
        let message_ids: Vec<MessageId> = match self.conversations.get(id.0) {
            Some(c) => {
                let ids = c.messages.clone();
                proof {
                    assert(ids@ =~= c.messages@);
                }
                ids
            }
            None => Vec::new(),
        };
        self.conversations.delete(id.0);
        let ghost index_after = self.conversation_index@;
        let ghost conversations_after = self.conversations@;
        let ghost messages_before = self.messages@;
        let n = message_ids.len();
        let mut i: usize = 0;
        while i < n
            invariant
                i <= n,
                self.messages.wf(),
                forall|j: int|
                    0 <= j < i ==> spec_get(
                        self.messages@,
                        (#[trigger] message_ids@[j]).0,
                    ) is None,
                forall|k: u128|
                    !lists_message_key(message_ids@, k) ==> spec_get(self.messages@, k) == spec_get(
                        messages_before,
                        k,
                    ),
                message_ids@.len() == 0 ==> self.messages@ == messages_before,
                self.version == old(self).version,
                self.settings == old(self).settings,
                self.home == old(self).home,
                self.conversation_index@ == index_after,
                self.conversations@ == conversations_after,
            decreases n - i,
        {
            let ghost pre = self.messages@;
            self.messages.delete(message_ids[i].0);
            proof {
                assert(lists_message_key(message_ids@, message_ids@[i as int].0));
                assert forall|k: u128|
                    !lists_message_key(message_ids@, k) implies spec_get(self.messages@, k)
                    == spec_get(messages_before, k) by {
                    assert(k != message_ids@[i as int].0);
                    assert(spec_get(self.messages@, k) == spec_get(pre, k));
                }
            }
            i = i + 1;
        }
        proof {
            if spec_get(old(self).conversations@, id.0) is None && !old(
                self,
            ).conversation_index@.contains(id) {
                assert(self.messages@ =~= old(self).messages@);
            }
            if spec_get(old(self).conversations@, id.0) is None {
                assert(message_ids@.len() == 0);
                assert(self.messages@ =~= old(self).messages@);
            }
        }
    }
}

/// When two unique-keyed lists agree everywhere but at one index, reads of
/// any other key agree.
proof fn lemma_preserved_elsewhere<V>(
    before: Seq<(u128, V)>,
    after: Seq<(u128, V)>,
    i: int,
    k: u128,
)
    requires
        keys_unique(before),
        keys_unique(after),
        0 <= i < after.len(),
        before.len() <= after.len() <= before.len() + 1,
        after.len() == before.len() + 1 ==> i == before.len(),
        forall|j: int| 0 <= j < after.len() && j != i ==> after[j] == before[j],
        i < before.len() ==> before[i].0 == after[i].0,
        k != after[i].0,
    ensures
        spec_get(after, k) == spec_get(before, k),
{
    if has_key(before, k) {
        let j = key_index(before, k);
        assert(0 <= j < before.len() && before[j].0 == k);
        assert(j != i);
        assert(after[j] == before[j]);
        lemma_get_at_index(before, j);
        lemma_get_at_index(after, j);
    } else {
        if has_key(after, k) {
            let j = key_index(after, k);
            assert(0 <= j < after.len() && after[j].0 == k);
            assert(j != i);
            assert(j < before.len());
            assert(before[j].0 == k);
        }
    }
}

/// Removing the entry at one index leaves reads of any other key as they
/// were.
proof fn lemma_removed_preserves<V>(before: Seq<(u128, V)>, after: Seq<(u128, V)>, i: int, k: u128)
    requires
        keys_unique(before),
        keys_unique(after),
        0 <= i < before.len(),
        after == before.remove(i),
        k != before[i].0,
    ensures
        spec_get(after, k) == spec_get(before, k),
{
    before.remove_ensures(i);
    if has_key(before, k) {
        let j = key_index(before, k);
        assert(0 <= j < before.len() && before[j].0 == k);
        lemma_get_at_index(before, j);
        if j < i {
            assert(after[j] == before[j]);
            lemma_get_at_index(after, j);
        } else {
            assert(j > i);
            assert(after[j - 1] == before[j]);
            lemma_get_at_index(after, j - 1);
        }
    } else {
        if has_key(after, k) {
            let j = key_index(after, k);
            assert(0 <= j < after.len() && after[j].0 == k);
            if j < i {
                assert(before[j].0 == k);
            } else {
                assert(before[j + 1].0 == k);
            }
        }
    }
}

} // verus!
