//! The conversation and message store.
//!
//! `Store` is the model of the two database tables: a list of conversations
//! and an append-only list of messages.  Every operation validates its
//! input before touching any row, keeps referential integrity (a message
//! always belongs to an existing conversation, and deleting a conversation
//! cascades to its messages), and keeps the message list ordered by
//! creation time.  The application mirrors each operation with the
//! corresponding SQL statements; this model is the specification of what
//! those statements do.

use vstd::prelude::*;
use vstd::seq_lib::{to_multiset_build, to_multiset_insert};
use vstd::string::StrSliceExecFns;

verus! {

/// Longest accepted conversation title, in characters.
pub const MAX_TITLE_LENGTH: usize = 500;

/// Longest accepted message content, in characters.
pub const MAX_CONTENT_LENGTH: usize = 100000;

/// Longest accepted model name, in characters.
pub const MAX_MODEL_LENGTH: usize = 100;

/// A conversation row.  Timestamps are clock ticks supplied by the caller;
/// the store never reads a clock itself.
#[derive(Debug)]
pub struct Conversation {
    pub id: String,
    pub title: String,
    pub created_at: u64,
    pub updated_at: u64,
}

/// The mathematical value of a conversation row.
pub ghost struct ConversationView {
    pub id: Seq<char>,
    pub title: Seq<char>,
    pub created_at: u64,
    pub updated_at: u64,
}

impl View for Conversation {
    type V = ConversationView;

    open spec fn view(&self) -> ConversationView {
        ConversationView {
            id: self.id@,
            title: self.title@,
            created_at: self.created_at,
            updated_at: self.updated_at,
        }
    }
}

impl Conversation {
    /// A field-for-field copy of the row.
    pub fn duplicate(&self) -> (r: Conversation)
        ensures
            r@ == self@,
    {
        Conversation {
            id: self.id.clone(),
            title: self.title.clone(),
            created_at: self.created_at,
            updated_at: self.updated_at,
        }
    }
}

/// A message row.
#[derive(Debug)]
pub struct Message {
    pub id: String,
    pub conversation_id: String,
    pub role: String,
    pub content: String,
    pub model: Option<String>,
    pub tokens_in: Option<i64>,
    pub tokens_out: Option<i64>,
    pub created_at: u64,
}

/// The mathematical value of a message row.
pub ghost struct MessageView {
    pub id: Seq<char>,
    pub conversation_id: Seq<char>,
    pub role: Seq<char>,
    pub content: Seq<char>,
    pub model: Option<Seq<char>>,
    pub tokens_in: Option<i64>,
    pub tokens_out: Option<i64>,
    pub created_at: u64,
}

/// The value of an optional text field.
pub open spec fn opt_text_view(m: Option<String>) -> Option<Seq<char>> {
    match m {
        Some(s) => Some(s@),
        None => None,
    }
}

impl View for Message {
    type V = MessageView;

    open spec fn view(&self) -> MessageView {
        MessageView {
            id: self.id@,
            conversation_id: self.conversation_id@,
            role: self.role@,
            content: self.content@,
            model: opt_text_view(self.model),
            tokens_in: self.tokens_in,
            tokens_out: self.tokens_out,
            created_at: self.created_at,
        }
    }
}

impl Message {
    /// A field-for-field copy of the row.
    pub fn duplicate(&self) -> (r: Message)
        ensures
            r@ == self@,
    {
        let model = match &self.model {
            Some(m) => Some(m.clone()),
            None => None,
        };
        Message {
            id: self.id.clone(),
            conversation_id: self.conversation_id.clone(),
            role: self.role.clone(),
            content: self.content.clone(),
            model,
            tokens_in: self.tokens_in,
            tokens_out: self.tokens_out,
            created_at: self.created_at,
        }
    }
}

/// Why an operation was refused.  Validation failures carry their own
/// message; everything the storage engine would refuse surfaces as the one
/// opaque failure, so that no internal detail crosses the boundary.
#[derive(Clone, Copy, Debug, PartialEq, Eq, Structural)]
pub enum StoreError {
    TitleTooLong,
    RoleInvalid,
    ContentTooLong,
    ModelTooLong,
    TokensInNegative,
    TokensOutNegative,
    Storage,
}

impl StoreError {
    /// The message shown across the boundary for this error.
    pub open spec fn spec_message(self) -> Seq<char> {
        match self {
            StoreError::TitleTooLong => "Title exceeds maximum length of 500 characters"@,
            StoreError::RoleInvalid => "Invalid role: must be 'user', 'assistant', or 'system'"@,
            StoreError::ContentTooLong => "Content exceeds maximum length of 100000 characters"@,
            StoreError::ModelTooLong => "Model name exceeds maximum length of 100 characters"@,
            StoreError::TokensInNegative => "tokens_in must be non-negative"@,
            StoreError::TokensOutNegative => "tokens_out must be non-negative"@,
            StoreError::Storage => "Operation failed"@,
        }
    }

    /// Renders the boundary message.
    pub fn message(&self) -> (r: String)
        ensures
            r@ == self.spec_message(),
    {
        match self {
            StoreError::TitleTooLong => "Title exceeds maximum length of 500 characters".to_owned(),
            StoreError::RoleInvalid => "Invalid role: must be 'user', 'assistant', or 'system'".to_owned(),
            StoreError::ContentTooLong => "Content exceeds maximum length of 100000 characters".to_owned(),
            StoreError::ModelTooLong => "Model name exceeds maximum length of 100 characters".to_owned(),
            StoreError::TokensInNegative => "tokens_in must be non-negative".to_owned(),
            StoreError::TokensOutNegative => "tokens_out must be non-negative".to_owned(),
            StoreError::Storage => "Operation failed".to_owned(),
        }
    }
}

/// The message shown for any underlying storage failure.  The application
/// logs the engine's own error and shows the caller only this.
pub fn storage_failure_message() -> (r: String)
    ensures
        r@ == StoreError::Storage.spec_message(),
{
    "Operation failed".to_owned()
}

/// The title given to a conversation created without one.
pub open spec fn spec_default_title() -> Seq<char> {
    "New Conversation"@
}

/// A conversation's activity timestamp after an operation at tick `now`:
/// it advances to `now` and never goes back, even if the caller's clock
/// does.
pub open spec fn advanced(prev: u64, now: u64) -> u64 {
    if now > prev {
        now
    } else {
        prev
    }
}

/// The accepted message roles.
pub open spec fn role_ok(role: Seq<char>) -> bool {
    role == "user"@ || role == "assistant"@ || role == "system"@
}

/// All validation that guards a message append.
pub open spec fn message_args_ok(
    role: Seq<char>,
    content: Seq<char>,
    model: Option<Seq<char>>,
    tokens_in: Option<i64>,
    tokens_out: Option<i64>,
) -> bool {
    &&& role_ok(role)
    &&& content.len() <= MAX_CONTENT_LENGTH
    &&& (model matches Some(m) ==> m.len() <= MAX_MODEL_LENGTH)
    &&& (tokens_in matches Some(t) ==> t >= 0)
    &&& (tokens_out matches Some(t) ==> t >= 0)
}

/// A message row that passed validation.
pub open spec fn valid_message(m: MessageView) -> bool {
    message_args_ok(m.role, m.content, m.model, m.tokens_in, m.tokens_out)
}

/// Checks a title against its length limit.
pub fn validate_title(title: &String) -> (r: Result<(), StoreError>)
    ensures
        r is Ok <==> title@.len() <= MAX_TITLE_LENGTH,
        r is Err ==> r->Err_0 == StoreError::TitleTooLong,
{
    if title.as_str().unicode_len() <= MAX_TITLE_LENGTH {
        Ok(())
    } else {
        Err(StoreError::TitleTooLong)
    }
}

/// Checks whether a role belongs to the closed set.
pub fn role_is_valid(role: &String) -> (r: bool)
    ensures
        r == role_ok(role@),
{
    let user: String = "user".to_owned();
    let assistant: String = "assistant".to_owned();
    let system_role: String = "system".to_owned();
    *role == user || *role == assistant || *role == system_role
}

/// Checks every argument of a message append, in the order the limits are
/// reported: role, content, model, then the token counts.
pub fn validate_message_args(
    role: &String,
    content: &String,
    model: &Option<String>,
    tokens_in: Option<i64>,
    tokens_out: Option<i64>,
) -> (r: Result<(), StoreError>)
    ensures
        r is Ok <==> message_args_ok(role@, content@, opt_text_view(*model), tokens_in, tokens_out),
        !role_ok(role@) ==> r == Err::<(), StoreError>(StoreError::RoleInvalid),
        role_ok(role@) && content@.len() > MAX_CONTENT_LENGTH ==> r == Err::<(), StoreError>(
            StoreError::ContentTooLong,
        ),
        role_ok(role@) && content@.len() <= MAX_CONTENT_LENGTH && (opt_text_view(*model) matches Some(m)
            && m.len() > MAX_MODEL_LENGTH) ==> r == Err::<(), StoreError>(StoreError::ModelTooLong),
        role_ok(role@) && content@.len() <= MAX_CONTENT_LENGTH && (opt_text_view(*model) matches Some(m)
            ==> m.len() <= MAX_MODEL_LENGTH) && (tokens_in matches Some(t) && t < 0) ==> r == Err::<
            (),
            StoreError,
        >(StoreError::TokensInNegative),
        role_ok(role@) && content@.len() <= MAX_CONTENT_LENGTH && (opt_text_view(*model) matches Some(m)
            ==> m.len() <= MAX_MODEL_LENGTH) && (tokens_in matches Some(t) ==> t >= 0) && (tokens_out
            matches Some(t) && t < 0) ==> r == Err::<(), StoreError>(StoreError::TokensOutNegative),
{
    if !role_is_valid(role) {
        return Err(StoreError::RoleInvalid);
    }
    if content.as_str().unicode_len() > MAX_CONTENT_LENGTH {
        return Err(StoreError::ContentTooLong);
    }
    match model {
        Some(m) => {
            if m.as_str().unicode_len() > MAX_MODEL_LENGTH {
                return Err(StoreError::ModelTooLong);
            }
        },
        None => {},
    }
    match tokens_in {
        Some(t) => {
            if t < 0 {
                return Err(StoreError::TokensInNegative);
            }
        },
        None => {},
    }
    match tokens_out {
        Some(t) => {
            if t < 0 {
                return Err(StoreError::TokensOutNegative);
            }
        },
        None => {},
    }
    Ok(())
}

/// The mathematical value of the whole store.
pub ghost struct StoreView {
    pub conversations: Seq<ConversationView>,
    pub messages: Seq<MessageView>,
}

impl StoreView {
    /// Some conversation row carries this identifier.
    pub open spec fn has_conversation(self, id: Seq<char>) -> bool {
        exists|j: int| 0 <= j < self.conversations.len() && self.conversations[j].id == id
    }

    /// Some message row carries this identifier.
    pub open spec fn has_message(self, id: Seq<char>) -> bool {
        exists|j: int| 0 <= j < self.messages.len() && self.messages[j].id == id
    }

    /// The store's invariant: identifiers are unique per table, every
    /// message references an existing conversation, messages are ordered
    /// by creation time, and every row passed validation.
    pub open spec fn wf(self) -> bool {
        &&& (forall|i: int, j: int|
            0 <= i < j < self.conversations.len() ==> #[trigger] self.conversations[i].id
                != #[trigger] self.conversations[j].id)
        &&& (forall|i: int, j: int|
            0 <= i < j < self.messages.len() ==> #[trigger] self.messages[i].id
                != #[trigger] self.messages[j].id)
        &&& (forall|i: int|
            0 <= i < self.messages.len() ==> self.has_conversation(
                (#[trigger] self.messages[i]).conversation_id,
            ))
        &&& (forall|i: int, j: int|
            0 <= i < j < self.messages.len() ==> #[trigger] self.messages[i].created_at
                <= #[trigger] self.messages[j].created_at)
        &&& (forall|i: int|
            0 <= i < self.conversations.len() ==> (#[trigger] self.conversations[i]).title.len()
                <= MAX_TITLE_LENGTH)
        &&& (forall|i: int| 0 <= i < self.messages.len() ==> valid_message(#[trigger] self.messages[i]))
    }
}

/// The values of a sequence of conversation rows.
pub open spec fn conv_views(s: Seq<Conversation>) -> Seq<ConversationView> {
    s.map_values(|c: Conversation| c@)
}

/// The values of a sequence of message rows.
pub open spec fn msg_views(s: Seq<Message>) -> Seq<MessageView> {
    s.map_values(|m: Message| m@)
}

/// The in-memory model of the two tables.
pub struct Store {
    conversations: Vec<Conversation>,
    messages: Vec<Message>,
}

impl View for Store {
    type V = StoreView;

    closed spec fn view(&self) -> StoreView {
        StoreView {
            conversations: conv_views(self.conversations@),
            messages: msg_views(self.messages@),
        }
    }
}

impl Store {
    /// An empty store.
    pub fn new() -> (s: Store)
        ensures
            s@.conversations.len() == 0,
            s@.messages.len() == 0,
            s@.wf(),
    {
        Store { conversations: Vec::new(), messages: Vec::new() }
    }

    /// Index of the conversation row carrying `id`, if any.
    fn find_conversation(&self, id: &String) -> (r: Option<usize>)
        ensures
            r matches Some(i) ==> 0 <= i < self@.conversations.len() && self@.conversations[
                i as int
            ].id == id@,
            r is None ==> !self@.has_conversation(id@),
    {
        let mut i: usize = 0;
        while i < self.conversations.len()
            invariant
                i <= self.conversations.len(),
                forall|j: int| 0 <= j < i ==> (#[trigger] self@.conversations[j]).id != id@,
            decreases self.conversations.len() - i,
        {
            if self.conversations[i].id == *id {
                return Some(i);
            }
            i = i + 1;
        }
        None
    }

    /// Whether some message row carries `id`.
    fn contains_message_id(&self, id: &String) -> (r: bool)
        ensures
            r == self@.has_message(id@),
    {
        let mut i: usize = 0;
        while i < self.messages.len()
            invariant
                i <= self.messages.len(),
                forall|j: int| 0 <= j < i ==> (#[trigger] self@.messages[j]).id != id@,
            decreases self.messages.len() - i,
        {
            if self.messages[i].id == *id {
                proof {
                    assert(self@.messages[i as int].id == id@);
                }
                return true;
            }
            i = i + 1;
        }
        false
    }

    /// Creates a conversation.  A missing title falls back to the default;
    /// a title over the limit is refused before anything is written, and a
    /// clashing identifier is refused as the storage engine would refuse a
    /// duplicate primary key.
    pub fn create_conversation(&mut self, title: Option<String>, id: String, now: u64) -> (r:
        Result<Conversation, StoreError>)
        requires
            old(self)@.wf(),
        ensures
            final(self)@.wf(),
            ({
                let t = match opt_text_view(title) {
                    Some(t) => t,
                    None => spec_default_title(),
                };
                &&& (t.len() > MAX_TITLE_LENGTH ==> r == Err::<Conversation, StoreError>(
                    StoreError::TitleTooLong,
                ) && final(self)@ == old(self)@)
                &&& (t.len() <= MAX_TITLE_LENGTH && old(self)@.has_conversation(id@) ==> r
                    == Err::<Conversation, StoreError>(StoreError::Storage) && final(self)@ == old(
                    self,
                )@)
                &&& (t.len() <= MAX_TITLE_LENGTH && !old(self)@.has_conversation(id@) ==> {
                    &&& r is Ok
                    &&& r->Ok_0@ == (ConversationView {
                        id: id@,
                        title: t,
                        created_at: now,
                        updated_at: now,
                    })
                    &&& final(self)@.conversations == old(self)@.conversations.push(r->Ok_0@)
                    &&& final(self)@.messages == old(self)@.messages
                })
            }),
    {
        let title_s: String = match title {
            Some(t) => t,
            None => "New Conversation".to_owned(),
        };
        if let Err(e) = validate_title(&title_s) {
            return Err(e);
        }
        if let Some(_i) = self.find_conversation(&id) {
            return Err(StoreError::Storage);
        }
        let row = Conversation { id, title: title_s, created_at: now, updated_at: now };
        let out = row.duplicate();
        let ghost pre = self@;
        self.conversations.push(row);
        proof {
            assert(self@.conversations =~= pre.conversations.push(out@));
            assert(self@.messages =~= pre.messages);
            assert forall|i: int| 0 <= i < self@.messages.len() implies self@.has_conversation(
                (#[trigger] self@.messages[i]).conversation_id,
            ) by {
                let j = choose|j: int|
                    0 <= j < pre.conversations.len() && pre.conversations[j].id
                        == pre.messages[i].conversation_id;
                assert(self@.conversations[j].id == self@.messages[i].conversation_id);
            }
        }
        Ok(out)
    }

    /// All conversations, most recently active first.  The result holds
    /// exactly the stored rows, ordered by `updated_at` descending; rows
    /// with equal timestamps may stand in any order, as a sort on that
    /// one column leaves ties open.
    pub fn list_conversations(&self) -> (r: Vec<Conversation>)
        requires
            self@.wf(),
        ensures
            conv_views(r@).to_multiset() == self@.conversations.to_multiset(),
            forall|p: int, q: int|
                0 <= p <= q < r@.len() ==> #[trigger] r@[p]@.updated_at >= #[trigger] r@[q]@.updated_at,
    {
        let mut out: Vec<Conversation> = Vec::new();
        proof {
            assert(conv_views(out@) =~= self@.conversations.take(0));
        }
        let mut i: usize = 0;
        while i < self.conversations.len()
            invariant
                i <= self.conversations.len(),
                conv_views(out@).to_multiset() == self@.conversations.take(i as int).to_multiset(),
                forall|p: int, q: int|
                    0 <= p <= q < out@.len() ==> #[trigger] out@[p]@.updated_at
                        >= #[trigger] out@[q]@.updated_at,
            decreases self.conversations.len() - i,
        {
            let c = self.conversations[i].duplicate();
            let mut p: usize = 0;
            while p < out.len() && out[p].updated_at >= c.updated_at
                invariant
                    p <= out@.len(),
                    c@ == self@.conversations[i as int],
                    0 <= i < self.conversations.len(),
                    forall|q: int| 0 <= q < p ==> (#[trigger] out@[q])@.updated_at >= c@.updated_at,
                    forall|pp: int, q: int|
                        0 <= pp <= q < out@.len() ==> #[trigger] out@[pp]@.updated_at
                            >= #[trigger] out@[q]@.updated_at,
                decreases out@.len() - p,
            {
                p = p + 1;
            }
            let ghost out0 = out@;
            out.insert(p, c);
            proof {
                assert(conv_views(out@) =~= conv_views(out0).insert(p as int, c@));
                to_multiset_insert(conv_views(out0), p as int, c@);
                assert(self@.conversations.take(i + 1) =~= self@.conversations.take(i as int).push(
                    self@.conversations[i as int],
                ));
                to_multiset_build(self@.conversations.take(i as int), self@.conversations[i as int]);
                assert forall|pp: int, q: int| 0 <= pp <= q < out@.len() implies out@[pp]@.updated_at
                    >= out@[q]@.updated_at by {
                    if pp < p && q < p {
                        assert(out@[pp] == out0[pp]);
                        assert(out@[q] == out0[q]);
                    } else if pp < p && q == p {
                        assert(out@[pp] == out0[pp]);
                    } else if pp < p && q > p {
                        assert(out@[pp] == out0[pp]);
                        assert(out@[q] == out0[q - 1]);
                    } else if pp == p && q > p {
                        assert(out@[q] == out0[q - 1]);
                        assert(q - 1 >= p);
                        assert(out0[q - 1]@.updated_at <= c@.updated_at);
                    }
                }
            }
            i = i + 1;
        }
        proof {
            assert(self@.conversations.take(i as int) =~= self@.conversations);
        }
        out
    }

    /// The messages of one conversation, in `created_at` ascending order:
    /// exactly the rows whose `conversation_id` matches, in stored order.
    pub fn get_messages(&self, conversation_id: String) -> (r: Vec<Message>)
        requires
            self@.wf(),
        ensures
            msg_views(r@) == self@.messages.filter(
                |m: MessageView| m.conversation_id == conversation_id@,
            ),
            forall|p: int, q: int|
                0 <= p <= q < r@.len() ==> #[trigger] r@[p]@.created_at <= #[trigger] r@[q]@.created_at,
            forall|p: int| 0 <= p < r@.len() ==> (#[trigger] r@[p])@.conversation_id == conversation_id@,
    {
        let ghost pred = |m: MessageView| m.conversation_id == conversation_id@;
        let mut out: Vec<Message> = Vec::new();
        let mut i: usize = 0;
        while i < self.messages.len()
            invariant
                i <= self.messages.len(),
                self@.wf(),
                msg_views(out@) == self@.messages.take(i as int).filter(pred),
                pred == (|m: MessageView| m.conversation_id == conversation_id@),
                forall|p: int, q: int|
                    0 <= p <= q < out@.len() ==> #[trigger] out@[p]@.created_at
                        <= #[trigger] out@[q]@.created_at,
                forall|p: int| 0 <= p < out@.len() ==> (#[trigger] out@[p])@.conversation_id
                    == conversation_id@,
                forall|p: int, j: int|
                    0 <= p < out@.len() && i <= j < self@.messages.len() ==> #[trigger] out@[p]@.created_at
                        <= #[trigger] self@.messages[j].created_at,
            decreases self.messages.len() - i,
        {
            let ghost out0 = out@;
            let ghost taken = self@.messages.take(i as int);
            let m = &self.messages[i];
            if m.conversation_id == conversation_id {
                out.push(m.duplicate());
            }
            proof {
                taken.lemma_filter_push(self@.messages[i as int], pred);
                assert(self@.messages.take(i + 1) =~= taken.push(self@.messages[i as int]));
                if pred(self@.messages[i as int]) {
                    assert(msg_views(out@) =~= msg_views(out0).push(self@.messages[i as int]));
                } else {
                    assert(msg_views(out@) =~= msg_views(out0));
                }
            }
            i = i + 1;
        }
        proof {
            assert(self@.messages.take(i as int) =~= self@.messages);
        }
        out
    }

    /// Renames a conversation and advances its activity timestamp, which
    /// never moves backwards.  A title over the limit is refused before
    /// anything is written; an unknown identifier is a silent no-op, as a
    /// zero-row update is.
    pub fn update_conversation_title(&mut self, id: String, title: String, now: u64) -> (r: Result<
        (),
        StoreError,
    >)
        requires
            old(self)@.wf(),
        ensures
            final(self)@.wf(),
            title@.len() > MAX_TITLE_LENGTH ==> r == Err::<(), StoreError>(StoreError::TitleTooLong)
                && final(self)@ == old(self)@,
            title@.len() <= MAX_TITLE_LENGTH ==> {
                &&& r == Ok::<(), StoreError>(())
                &&& final(self)@.messages == old(self)@.messages
                &&& final(self)@.conversations.len() == old(self)@.conversations.len()
                &&& forall|i: int|
                    0 <= i < old(self)@.conversations.len() ==> #[trigger] final(self)@.conversations[i]
                        == (if old(self)@.conversations[i].id == id@ {
                        ConversationView {
                            title: title@,
                            updated_at: advanced(old(self)@.conversations[i].updated_at, now),
                            ..old(self)@.conversations[i]
                        }
                    } else {
                        old(self)@.conversations[i]
                    })
                &&& forall|i: int|
                    0 <= i < old(self)@.conversations.len() && (#[trigger] old(self)@.conversations[i]).id
                        == id@ ==> final(self)@.conversations[i].title == title@
                        && final(self)@.conversations[i].updated_at
                        >= old(self)@.conversations[i].updated_at
            },
    {
        if let Err(e) = validate_title(&title) {
            return Err(e);
        }
        let found = self.find_conversation(&id);
        match found {
            None => Ok(()),
            Some(idx) => {
                let ghost pre = self@;
                let row = self.conversations.remove(idx);
                let new_at = if now > row.updated_at {
                    now
                } else {
                    row.updated_at
                };
                let changed = Conversation {
                    id: row.id,
                    title,
                    created_at: row.created_at,
                    updated_at: new_at,
                };
                self.conversations.insert(idx, changed);
                proof {
                    assert(self@.conversations =~= pre.conversations.update(
                        idx as int,
                        ConversationView {
                            title: title@,
                            updated_at: advanced(pre.conversations[idx as int].updated_at, now),
                            ..pre.conversations[idx as int]
                        },
                    ));
                    assert(self@.messages =~= pre.messages);
                    assert forall|i: int|
                        0 <= i < pre.conversations.len() implies #[trigger] self@.conversations[i].id
                        == pre.conversations[i].id by {}
                    assert forall|i: int| 0 <= i < self@.messages.len() implies self@.has_conversation(
                        (#[trigger] self@.messages[i]).conversation_id,
                    ) by {
                        let j = choose|j: int|
                            0 <= j < pre.conversations.len() && pre.conversations[j].id
                                == pre.messages[i].conversation_id;
                        assert(self@.conversations[j].id == self@.messages[i].conversation_id);
                    }
                    assert forall|i: int|
                        0 <= i < pre.conversations.len() implies #[trigger] self@.conversations[i]
                        == (if pre.conversations[i].id == id@ {
                        ConversationView {
                            title: title@,
                            updated_at: advanced(pre.conversations[i].updated_at, now),
                            ..pre.conversations[i]
                        }
                    } else {
                        pre.conversations[i]
                    }) by {
                        if i != idx && pre.conversations[i].id == id@ {
                            assert(pre.conversations[idx as int].id == id@);
                        }
                    }
                }
                Ok(())
            },
        }
    }

    /// Appends one message.  Every argument is validated before any row
    /// is touched; then, in one atomic step, the parent conversation's
    /// `updated_at` advances to `now` — never backwards — and the message
    /// is inserted with `created_at == now`, so no observer sees one
    /// effect without the other, and the conversation is never dated
    /// before its newest message.  Appending to an unknown conversation, or reusing a message
    /// identifier, fails as the storage engine would fail the transaction,
    /// and writes nothing.
    pub fn save_message(
        &mut self,
        conversation_id: String,
        role: String,
        content: String,
        model: Option<String>,
        tokens_in: Option<i64>,
        tokens_out: Option<i64>,
        id: String,
        now: u64,
    ) -> (r: Result<Message, StoreError>)
        requires
            old(self)@.wf(),
        ensures
            final(self)@.wf(),
            r is Err ==> final(self)@ == old(self)@,
            !role_ok(role@) ==> r == Err::<Message, StoreError>(StoreError::RoleInvalid),
            role_ok(role@) && content@.len() > MAX_CONTENT_LENGTH ==> r == Err::<Message, StoreError>(
                StoreError::ContentTooLong,
            ),
            role_ok(role@) && content@.len() <= MAX_CONTENT_LENGTH && (opt_text_view(model)
                matches Some(m) && m.len() > MAX_MODEL_LENGTH) ==> r == Err::<Message, StoreError>(
                StoreError::ModelTooLong,
            ),
            role_ok(role@) && content@.len() <= MAX_CONTENT_LENGTH && (opt_text_view(model)
                matches Some(m) ==> m.len() <= MAX_MODEL_LENGTH) && (tokens_in matches Some(t) && t
                < 0) ==> r == Err::<Message, StoreError>(StoreError::TokensInNegative),
            role_ok(role@) && content@.len() <= MAX_CONTENT_LENGTH && (opt_text_view(model)
                matches Some(m) ==> m.len() <= MAX_MODEL_LENGTH) && (tokens_in matches Some(t) ==> t
                >= 0) && (tokens_out matches Some(t) && t < 0) ==> r == Err::<Message, StoreError>(
                StoreError::TokensOutNegative,
            ),
            message_args_ok(role@, content@, opt_text_view(model), tokens_in, tokens_out) && !old(
                self,
            )@.has_conversation(conversation_id@) ==> r == Err::<Message, StoreError>(
                StoreError::Storage,
            ),
            message_args_ok(role@, content@, opt_text_view(model), tokens_in, tokens_out) && old(
                self,
            )@.has_conversation(conversation_id@) && old(self)@.has_message(id@) ==> r == Err::<
                Message,
                StoreError,
            >(StoreError::Storage),
            message_args_ok(role@, content@, opt_text_view(model), tokens_in, tokens_out) && old(
                self,
            )@.has_conversation(conversation_id@) && !old(self)@.has_message(id@) ==> {
                &&& r is Ok
                &&& r->Ok_0@ == (MessageView {
                    id: id@,
                    conversation_id: conversation_id@,
                    role: role@,
                    content: content@,
                    model: opt_text_view(model),
                    tokens_in: tokens_in,
                    tokens_out: tokens_out,
                    created_at: now,
                })
                &&& final(self)@.conversations.len() == old(self)@.conversations.len()
                &&& (forall|i: int|
                    0 <= i < old(self)@.conversations.len() ==> #[trigger] final(self)@.conversations[i]
                        == (if old(self)@.conversations[i].id == conversation_id@ {
                        ConversationView {
                            updated_at: advanced(old(self)@.conversations[i].updated_at, now),
                            ..old(self)@.conversations[i]
                        }
                    } else {
                        old(self)@.conversations[i]
                    }))
                &&& (forall|i: int|
                    0 <= i < old(self)@.conversations.len() && (#[trigger] old(self)@.conversations[i]).id
                        == conversation_id@ ==> final(self)@.conversations[i].updated_at >= old(
                        self,
                    )@.conversations[i].updated_at)
                &&& (exists|k: int|
                    {
                        &&& 0 <= k <= old(self)@.messages.len()
                        &&& final(self)@.messages == old(self)@.messages.insert(k, r->Ok_0@)
                        &&& (forall|j: int|
                            0 <= j < k ==> (#[trigger] old(self)@.messages[j]).created_at <= now)
                        &&& (k < old(self)@.messages.len() ==> old(self)@.messages[k].created_at
                            > now)
                    })
                &&& (forall|i: int|
                    0 <= i < final(self)@.conversations.len()
                        && (#[trigger] final(self)@.conversations[i]).id == conversation_id@
                        ==> final(self)@.conversations[i].updated_at >= r->Ok_0@.created_at)
            },
    {
        if let Err(e) = validate_message_args(&role, &content, &model, tokens_in, tokens_out) {
            return Err(e);
        }
        let found = self.find_conversation(&conversation_id);
        let idx = match found {
            None => {
                return Err(StoreError::Storage);
            },
            Some(ix) => ix,
        };
        if self.contains_message_id(&id) {
            return Err(StoreError::Storage);
        }
        let ghost pre = self@;

        let row = self.conversations.remove(idx);
        let bumped_at = if now > row.updated_at {
            now
        } else {
            row.updated_at
        };
        let bumped = Conversation {
            id: row.id,
            title: row.title,
            created_at: row.created_at,
            updated_at: bumped_at,
        };
        self.conversations.insert(idx, bumped);
        proof {
            assert(self@.conversations =~= pre.conversations.update(
                idx as int,
                ConversationView {
                    updated_at: advanced(pre.conversations[idx as int].updated_at, now),
                    ..pre.conversations[idx as int]
                },
            ));
            assert(self@.messages =~= pre.messages);
        }

        let mut k: usize = 0;
        while k < self.messages.len() && self.messages[k].created_at <= now
            invariant
                k <= self.messages@.len(),
                self@.messages == pre.messages,
                forall|j: int| 0 <= j < k ==> (#[trigger] self@.messages[j]).created_at <= now,
            decreases self.messages@.len() - k,
        {
            k = k + 1;
        }
        let ghost convs1 = self@.conversations;

        let msg = Message {
            id,
            conversation_id,
            role,
            content,
            model,
            tokens_in,
            tokens_out,
            created_at: now,
        };
        let out = msg.duplicate();
        self.messages.insert(k, msg);
        proof {
            assert(self@.conversations =~= convs1);
            assert(self@.messages =~= pre.messages.insert(k as int, out@));
            lemma_append_preserves_wf(pre, self@, idx as int, k as int, out@, now);
            assert forall|i: int|
                0 <= i < pre.conversations.len() implies #[trigger] self@.conversations[i] == (
            if pre.conversations[i].id == conversation_id@ {
                ConversationView {
                    updated_at: advanced(pre.conversations[i].updated_at, now),
                    ..pre.conversations[i]
                }
            } else {
                pre.conversations[i]
            }) by {
                if i != idx && pre.conversations[i].id == conversation_id@ {
                    assert(pre.conversations[idx as int].id == conversation_id@);
                }
            }
        }
        Ok(out)
    }

    /// Removes a conversation and, in the same step, every message that
    /// belonged to it; removing an unknown identifier changes nothing and
    /// still succeeds.
    pub fn delete_conversation(&mut self, id: String)
        requires
            old(self)@.wf(),
        ensures
            final(self)@.wf(),
            final(self)@.conversations == old(self)@.conversations.filter(
                |c: ConversationView| c.id != id@,
            ),
            final(self)@.messages == old(self)@.messages.filter(
                |m: MessageView| m.conversation_id != id@,
            ),
            forall|i: int|
                0 <= i < final(self)@.messages.len() ==> (#[trigger] final(self)@.messages[i]).conversation_id
                    != id@,
    {
        let ghost pre = self@;
        let ghost cpred = |c: ConversationView| c.id != id@;
        let ghost mpred = |m: MessageView| m.conversation_id != id@;

        let mut keep_convs: Vec<Conversation> = Vec::new();
        let mut i: usize = 0;
        while i < self.conversations.len()
            invariant
                i <= self.conversations.len(),
                self@ == pre,
                pre.wf(),
                cpred == (|c: ConversationView| c.id != id@),
                conv_views(keep_convs@) == pre.conversations.take(i as int).filter(cpred),
                forall|p: int|
                    0 <= p < keep_convs@.len() ==> exists|j: int|
                        0 <= j < i && (#[trigger] keep_convs@[p])@ == pre.conversations[j],
            decreases self.conversations.len() - i,
        {
            let ghost out0 = keep_convs@;
            let ghost taken = pre.conversations.take(i as int);
            let c = &self.conversations[i];
            if c.id == id {
            } else {
                keep_convs.push(c.duplicate());
            }
            proof {
                taken.lemma_filter_push(pre.conversations[i as int], cpred);
                assert(pre.conversations.take(i + 1) =~= taken.push(pre.conversations[i as int]));
                if cpred(pre.conversations[i as int]) {
                    assert(conv_views(keep_convs@) =~= conv_views(out0).push(
                        pre.conversations[i as int],
                    ));
                } else {
                    assert(conv_views(keep_convs@) =~= conv_views(out0));
                }
            }
            i = i + 1;
        }

        let mut keep_msgs: Vec<Message> = Vec::new();
        let mut k: usize = 0;
        while k < self.messages.len()
            invariant
                k <= self.messages.len(),
                self@ == pre,
                pre.wf(),
                mpred == (|m: MessageView| m.conversation_id != id@),
                msg_views(keep_msgs@) == pre.messages.take(k as int).filter(mpred),
                forall|p: int|
                    0 <= p < keep_msgs@.len() ==> exists|j: int|
                        0 <= j < k && (#[trigger] keep_msgs@[p])@ == pre.messages[j],
                forall|p: int, j: int|
                    0 <= p < keep_msgs@.len() && k <= j < pre.messages.len()
                        ==> #[trigger] keep_msgs@[p]@.created_at <= #[trigger] pre.messages[j].created_at,
            decreases self.messages.len() - k,
        {
            let ghost out0 = keep_msgs@;
            let ghost taken = pre.messages.take(k as int);
            let m = &self.messages[k];
            if m.conversation_id == id {
            } else {
                keep_msgs.push(m.duplicate());
            }
            proof {
                taken.lemma_filter_push(pre.messages[k as int], mpred);
                assert(pre.messages.take(k + 1) =~= taken.push(pre.messages[k as int]));
                if mpred(pre.messages[k as int]) {
                    assert(msg_views(keep_msgs@) =~= msg_views(out0).push(pre.messages[k as int]));
                } else {
                    assert(msg_views(keep_msgs@) =~= msg_views(out0));
                }
            }
            k = k + 1;
        }

        self.conversations = keep_convs;
        self.messages = keep_msgs;
        proof {
            assert(pre.conversations.take(pre.conversations.len() as int) =~= pre.conversations);
            assert(pre.messages.take(pre.messages.len() as int) =~= pre.messages);
            assert(self@.conversations == pre.conversations.filter(cpred));
            assert(self@.messages == pre.messages.filter(mpred));
            lemma_delete_preserves_wf(pre, id@);
        }
    }
}

/// After an append the store is still well-formed: the bumped
/// conversation keeps its identifier and title, and the new message lands
/// exactly between the rows dated no later and the rows dated later.
proof fn lemma_append_preserves_wf(
    pre: StoreView,
    post: StoreView,
    idx: int,
    k: int,
    m: MessageView,
    now: u64,
)
    requires
        pre.wf(),
        0 <= idx < pre.conversations.len(),
        0 <= k <= pre.messages.len(),
        post.conversations == pre.conversations.update(
            idx,
            (ConversationView {
                updated_at: advanced(pre.conversations[idx].updated_at, now),
                ..pre.conversations[idx]
            }),
        ),
        post.messages == pre.messages.insert(k, m),
        valid_message(m),
        m.created_at == now,
        m.conversation_id == pre.conversations[idx].id,
        forall|j: int| 0 <= j < k ==> (#[trigger] pre.messages[j]).created_at <= now,
        k < pre.messages.len() ==> pre.messages[k].created_at > now,
        !pre.has_message(m.id),
    ensures
        post.wf(),
{
    assert forall|i: int|
        0 <= i < post.messages.len() implies #[trigger] post.messages[i] == (if i < k {
        pre.messages[i]
    } else if i == k {
        m
    } else {
        pre.messages[i - 1]
    }) by {}
    assert forall|w: int| 0 <= w < pre.messages.len() implies (#[trigger] pre.messages[w]).id
        != m.id by {}
    assert forall|i: int, j: int| 0 <= i < j < post.messages.len() implies #[trigger] post.messages[i].id
        != #[trigger] post.messages[j].id by {
        if i == k {
            assert(post.messages[j] == pre.messages[j - 1]);
        } else if j == k {
            assert(post.messages[i] == pre.messages[i]);
        }
    }
    assert forall|i: int, j: int|
        0 <= i < j < post.messages.len() implies #[trigger] post.messages[i].created_at
        <= #[trigger] post.messages[j].created_at by {
        if i < k && j == k {
            assert(post.messages[i] == pre.messages[i]);
        } else if i == k && j > k {
            assert(post.messages[j] == pre.messages[j - 1]);
            assert(pre.messages[k].created_at <= pre.messages[j - 1].created_at);
        }
    }
    assert forall|i: int| 0 <= i < post.messages.len() implies post.has_conversation(
        (#[trigger] post.messages[i]).conversation_id,
    ) by {
        if i == k {
            assert(post.conversations[idx].id == m.conversation_id);
        } else {
            let v = if i < k {
                i
            } else {
                i - 1
            };
            assert(pre.has_conversation(pre.messages[v].conversation_id));
            let j = choose|j: int|
                0 <= j < pre.conversations.len() && pre.conversations[j].id
                    == pre.messages[v].conversation_id;
            assert(post.conversations[j].id == pre.conversations[j].id);
        }
    }
    assert forall|i: int| 0 <= i < post.messages.len() implies valid_message(
        #[trigger] post.messages[i],
    ) by {}
}

/// After a cascade delete the surviving rows still form a well-formed
/// store: every surviving property is inherited from the rows' positions
/// in the store before the delete.
proof fn lemma_delete_preserves_wf(pre: StoreView, id: Seq<char>)
    requires
        pre.wf(),
    ensures
        (StoreView {
            conversations: pre.conversations.filter(|c: ConversationView| c.id != id),
            messages: pre.messages.filter(|m: MessageView| m.conversation_id != id),
        }).wf(),
{
    let cpred = |c: ConversationView| c.id != id;
    let mpred = |m: MessageView| m.conversation_id != id;
    let post = StoreView {
        conversations: pre.conversations.filter(cpred),
        messages: pre.messages.filter(mpred),
    };
    lemma_filter_pairs_distinct_convs(pre.conversations, cpred);
    lemma_filter_pairs_msgs(pre.messages, mpred);
    assert forall|i: int| 0 <= i < post.messages.len() implies post.has_conversation(
        (#[trigger] post.messages[i]).conversation_id,
    ) by {
        let m = post.messages[i];
        assert(post.messages.contains(m));
        pre.messages.lemma_filter_contains_rev(mpred, m);
        let j = choose|j: int| 0 <= j < pre.messages.len() && pre.messages[j] == m;
        assert(pre.has_conversation(m.conversation_id));
        let jc = choose|jc: int|
            0 <= jc < pre.conversations.len() && pre.conversations[jc].id == m.conversation_id;
        assert(cpred(pre.conversations[jc]));
        pre.conversations.lemma_filter_contains(cpred, jc);
        let kc = choose|kc: int|
            0 <= kc < post.conversations.len() && post.conversations[kc] == pre.conversations[jc];
        assert(post.conversations[kc].id == m.conversation_id);
    }
    assert forall|i: int| 0 <= i < post.conversations.len() implies (
    #[trigger] post.conversations[i]).title.len() <= MAX_TITLE_LENGTH by {
        let c = post.conversations[i];
        assert(post.conversations.contains(c));
        pre.conversations.lemma_filter_contains_rev(cpred, c);
        let j = choose|j: int| 0 <= j < pre.conversations.len() && pre.conversations[j] == c;
        assert(pre.conversations[j].title.len() <= MAX_TITLE_LENGTH);
    }
    assert forall|i: int| 0 <= i < post.messages.len() implies valid_message(
        #[trigger] post.messages[i],
    ) by {
        let m = post.messages[i];
        assert(post.messages.contains(m));
        pre.messages.lemma_filter_contains_rev(mpred, m);
        let j = choose|j: int| 0 <= j < pre.messages.len() && pre.messages[j] == m;
        assert(valid_message(pre.messages[j]));
    }
}

/// Filtering keeps conversation identifiers pairwise distinct.
proof fn lemma_filter_pairs_distinct_convs(s: Seq<ConversationView>, pred: spec_fn(ConversationView) -> bool)
    requires
        forall|i: int, j: int| 0 <= i < j < s.len() ==> #[trigger] s[i].id != #[trigger] s[j].id,
    ensures
        forall|i: int, j: int|
            0 <= i < j < s.filter(pred).len() ==> #[trigger] s.filter(pred)[i].id
                != #[trigger] s.filter(pred)[j].id,
    decreases s.len(),
{
    reveal(Seq::filter);
    if s.len() == 0 {
    } else {
        let rest = s.drop_last();
        let last = s.last();
        lemma_filter_pairs_distinct_convs(rest, pred);
        if pred(last) {
            assert(s.filter(pred) == rest.filter(pred).push(last));
            assert forall|i: int, j: int| 0 <= i < j < s.filter(pred).len() implies #[trigger] s.filter(
                pred,
            )[i].id != #[trigger] s.filter(pred)[j].id by {
                if j == s.filter(pred).len() - 1 {
                    let e = s.filter(pred)[i];
                    assert(rest.filter(pred)[i] == e);
                    assert(rest.filter(pred).contains(e));
                    rest.lemma_filter_contains_rev(pred, e);
                    let w = choose|w: int| 0 <= w < rest.len() && rest[w] == e;
                    assert(s[w] == e);
                    assert(s[w].id != s[s.len() - 1].id);
                } else {
                    assert(s.filter(pred)[i] == rest.filter(pred)[i]);
                    assert(s.filter(pred)[j] == rest.filter(pred)[j]);
                }
            }
        } else {
            assert(s.filter(pred) == rest.filter(pred));
        }
    }
}

/// Filtering keeps message identifiers pairwise distinct and keeps the
/// creation-time ordering.
proof fn lemma_filter_pairs_msgs(s: Seq<MessageView>, pred: spec_fn(MessageView) -> bool)
    requires
        forall|i: int, j: int| 0 <= i < j < s.len() ==> #[trigger] s[i].id != #[trigger] s[j].id,
        forall|i: int, j: int|
            0 <= i < j < s.len() ==> #[trigger] s[i].created_at <= #[trigger] s[j].created_at,
    ensures
        forall|i: int, j: int|
            0 <= i < j < s.filter(pred).len() ==> #[trigger] s.filter(pred)[i].id
                != #[trigger] s.filter(pred)[j].id,
        forall|i: int, j: int|
            0 <= i < j < s.filter(pred).len() ==> #[trigger] s.filter(pred)[i].created_at
                <= #[trigger] s.filter(pred)[j].created_at,
    decreases s.len(),
{
    reveal(Seq::filter);
    if s.len() == 0 {
    } else {
        let rest = s.drop_last();
        let last = s.last();
        lemma_filter_pairs_msgs(rest, pred);
        if pred(last) {
            assert(s.filter(pred) == rest.filter(pred).push(last));
            assert forall|i: int, j: int| 0 <= i < j < s.filter(pred).len() implies #[trigger] s.filter(
                pred,
            )[i].id != #[trigger] s.filter(pred)[j].id by {
                if j == s.filter(pred).len() - 1 {
                    let e = s.filter(pred)[i];
                    assert(rest.filter(pred)[i] == e);
                    assert(rest.filter(pred).contains(e));
                    rest.lemma_filter_contains_rev(pred, e);
                    let w = choose|w: int| 0 <= w < rest.len() && rest[w] == e;
                    assert(s[w] == e);
                    assert(s[w].id != s[s.len() - 1].id);
                } else {
                    assert(s.filter(pred)[i] == rest.filter(pred)[i]);
                    assert(s.filter(pred)[j] == rest.filter(pred)[j]);
                }
            }
            assert forall|i: int, j: int| 0 <= i < j < s.filter(pred).len() implies #[trigger] s.filter(
                pred,
            )[i].created_at <= #[trigger] s.filter(pred)[j].created_at by {
                if j == s.filter(pred).len() - 1 {
                    let e = s.filter(pred)[i];
                    assert(rest.filter(pred)[i] == e);
                    assert(rest.filter(pred).contains(e));
                    rest.lemma_filter_contains_rev(pred, e);
                    let w = choose|w: int| 0 <= w < rest.len() && rest[w] == e;
                    assert(s[w] == e);
                    assert(s[w].created_at <= s[s.len() - 1].created_at);
                } else {
                    assert(s.filter(pred)[i] == rest.filter(pred)[i]);
                    assert(s.filter(pred)[j] == rest.filter(pred)[j]);
                }
            }
        } else {
            assert(s.filter(pred) == rest.filter(pred));
        }
    }
}

} // verus!
