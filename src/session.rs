//! Conversation sessions: an optional leading system prompt followed by user
//! and assistant turns, trimmed to a configured number of turns.
use vstd::prelude::*;
use crate::store::KeyedStore;

verus! {

#[derive(Clone, Copy, Debug, PartialEq, Eq, Structural)]
pub enum MessageRole {
    User,
    Assistant,
    System,
}

#[derive(Debug)]
pub struct ChatMessage {
    pub role: MessageRole,
    pub content: String,
}

impl Clone for ChatMessage {
    fn clone(&self) -> (r: Self)
        ensures
            r == *self,
    {
        ChatMessage { role: self.role, content: self.content.clone() }
    }
}

#[derive(Debug)]
pub struct SessionConfig {
    pub max_turns: usize,
    pub system_prompt: Option<String>,
}

impl Clone for SessionConfig {
    fn clone(&self) -> (r: Self)
        ensures
            r == *self,
    {
        let system_prompt = match &self.system_prompt {
            Some(p) => Some(p.clone()),
            None => None,
        };
        SessionConfig { max_turns: self.max_turns, system_prompt }
    }
}

pub const DEFAULT_MAX_TURNS: usize = 10;

impl Default for SessionConfig {
    fn default() -> (r: Self)
        ensures
            r.max_turns == DEFAULT_MAX_TURNS,
            r.system_prompt.is_none(),
    {
        SessionConfig { max_turns: DEFAULT_MAX_TURNS, system_prompt: None }
    }
}

pub open spec fn is_system(m: ChatMessage) -> bool {
    m.role == MessageRole::System
}

/// How many messages of `s` are not system messages.
pub open spec fn non_system_count(s: Seq<ChatMessage>) -> nat
    decreases s.len(),
{
    if s.len() == 0 {
        0
    } else {
        non_system_count(s.drop_last()) + if is_system(s.last()) {
            0nat
        } else {
            1nat
        }
    }
}

/// Index of the first message that is not a system message (`s.len()` if none).
pub open spec fn first_non_system(s: Seq<ChatMessage>) -> nat
    decreases s.len(),
{
    if s.len() == 0 || !is_system(s[0]) {
        0
    } else {
        1 + first_non_system(s.skip(1))
    }
}

/// The history after trimming to `max_turns` turns: whole turns beyond the
/// limit are cut right after the leading system messages.
pub open spec fn trimmed(s: Seq<ChatMessage>, max_turns: nat) -> Seq<ChatMessage> {
    let turns = non_system_count(s) / 2;
    if turns > max_turns {
        let k = first_non_system(s) as int;
        let cut = ((turns - max_turns) * 2) as int;
        s.subrange(0, k) + s.subrange(k + cut, s.len() as int)
    } else {
        s
    }
}

pub open spec fn system_message(p: String) -> ChatMessage {
    ChatMessage { role: MessageRole::System, content: p }
}

/// The history of a freshly created session.
pub open spec fn initial_messages(config: SessionConfig) -> Seq<ChatMessage> {
    match config.system_prompt {
        Some(p) => seq![system_message(p)],
        None => Seq::empty(),
    }
}

/// The first system message of a history, if any.
pub open spec fn first_system(s: Seq<ChatMessage>) -> Option<ChatMessage>
    decreases s.len(),
{
    if s.len() == 0 {
        None
    } else if is_system(s[0]) {
        Some(s[0])
    } else {
        first_system(s.skip(1))
    }
}

/// The history after `clear`: only the first system message is kept.
pub open spec fn cleared(s: Seq<ChatMessage>) -> Seq<ChatMessage> {
    match first_system(s) {
        Some(m) => seq![m],
        None => Seq::empty(),
    }
}

/// The configured system prompt, if any, is the first message and the only
/// system message; without one there is no system message at all.
pub open spec fn prompt_in_place(s: Seq<ChatMessage>, prompt: Option<String>) -> bool {
    match prompt {
        Some(p) => s.len() >= 1 && s[0] == system_message(p) && forall|j: int|
            1 <= j < s.len() ==> !is_system(#[trigger] s[j]),
        None => forall|j: int| 0 <= j < s.len() ==> !is_system(#[trigger] s[j]),
    }
}

/// Counting non-system messages is additive over concatenation.
pub proof fn lemma_count_concat(a: Seq<ChatMessage>, b: Seq<ChatMessage>)
    ensures
        non_system_count(a + b) == non_system_count(a) + non_system_count(b),
    decreases b.len(),
{
    if b.len() == 0 {
        assert(a + b =~= a);
    } else {
        assert((a + b).drop_last() =~= a + b.drop_last());
        lemma_count_concat(a, b.drop_last());
    }
}

/// The non-system count is at most the length; it is zero where every
/// message is a system message, and the length where none is.
pub proof fn lemma_count_bounds(s: Seq<ChatMessage>)
    ensures
        non_system_count(s) <= s.len(),
        (forall|j: int| 0 <= j < s.len() ==> is_system(#[trigger] s[j])) ==> non_system_count(s)
            == 0,
        (forall|j: int| 0 <= j < s.len() ==> !is_system(#[trigger] s[j])) ==> non_system_count(s)
            == s.len(),
    decreases s.len(),
{
    if s.len() > 0 {
        let d = s.drop_last();
        lemma_count_bounds(d);
        if forall|j: int| 0 <= j < s.len() ==> is_system(#[trigger] s[j]) {
            assert forall|j: int| 0 <= j < d.len() implies is_system(#[trigger] d[j]) by {
                assert(d[j] == s[j]);
            }
            assert(s.last() == s[s.len() - 1]);
        }
        if forall|j: int| 0 <= j < s.len() ==> !is_system(#[trigger] s[j]) {
            assert forall|j: int| 0 <= j < d.len() implies !is_system(#[trigger] d[j]) by {
                assert(d[j] == s[j]);
            }
            assert(s.last() == s[s.len() - 1]);
        }
    }
}

proof fn lemma_first_non_system(s: Seq<ChatMessage>, k: int)
    requires
        0 <= k <= s.len(),
        forall|j: int| 0 <= j < k ==> is_system(#[trigger] s[j]),
        k == s.len() || !is_system(s[k]),
    ensures
        first_non_system(s) == k,
    decreases k,
{
    if k > 0 {
        let t = s.skip(1);
        assert forall|j: int| 0 <= j < k - 1 implies is_system(#[trigger] t[j]) by {
            assert(t[j] == s[j + 1]);
        }
        if k < s.len() {
            assert(t[k - 1] == s[k]);
        }
        lemma_first_non_system(t, k - 1);
    }
}

/// Where the leading messages are system messages and the rest are not,
/// cutting `cut` messages right after them leaves `count - cut` non-system ones.
proof fn lemma_cut_after_leading(s: Seq<ChatMessage>, k: int, cut: int)
    requires
        0 <= k <= s.len(),
        0 <= cut,
        k + cut <= s.len(),
        forall|j: int| 0 <= j < k ==> is_system(#[trigger] s[j]),
        forall|j: int| k <= j < s.len() ==> !is_system(#[trigger] s[j]),
    ensures
        non_system_count(s) == s.len() - k,
        non_system_count(s.subrange(0, k) + s.subrange(k + cut, s.len() as int)) == s.len() - k
            - cut,
{
    let a = s.subrange(0, k);
    let b = s.subrange(k, s.len() as int);
    let c = s.subrange(k + cut, s.len() as int);
    assert(s =~= a + b);
    lemma_count_concat(a, b);
    lemma_count_concat(a, c);
    assert forall|j: int| 0 <= j < a.len() implies is_system(#[trigger] a[j]) by {
        assert(a[j] == s[j]);
    }
    assert forall|j: int| 0 <= j < b.len() implies !is_system(#[trigger] b[j]) by {
        assert(b[j] == s[k + j]);
    }
    assert forall|j: int| 0 <= j < c.len() implies !is_system(#[trigger] c[j]) by {
        assert(c[j] == s[k + cut + j]);
    }
    lemma_count_bounds(a);
    lemma_count_bounds(b);
    lemma_count_bounds(c);
}

/// Appending a non-system message to a history that keeps its system prompt
/// in place, then trimming, keeps the prompt in place; the non-system messages
/// left number at most `2 * max_turns`, plus one while a turn is incomplete.
pub proof fn lemma_append_then_trim(
    s: Seq<ChatMessage>,
    m: ChatMessage,
    prompt: Option<String>,
    max_turns: nat,
)
    requires
        prompt_in_place(s, prompt),
        !is_system(m),
    ensures
        prompt_in_place(trimmed(s.push(m), max_turns), prompt),
        non_system_count(trimmed(s.push(m), max_turns)) <= 2 * max_turns + non_system_count(
            s.push(m),
        ) % 2,
        non_system_count(trimmed(s.push(m), max_turns)) % 2 == non_system_count(s.push(m)) % 2,
{
    let p = s.push(m);
    let k: int = if prompt.is_some() {
        1
    } else {
        0
    };
    assert forall|j: int| 0 <= j < k implies is_system(#[trigger] p[j]) by {
        assert(p[j] == s[j]);
    }
    assert forall|j: int| k <= j < p.len() implies !is_system(#[trigger] p[j]) by {
        if j < s.len() {
            assert(p[j] == s[j]);
        }
    }
    lemma_cut_after_leading(p, k, 0);
    let n = non_system_count(p);
    let turns = n / 2;
    if k < p.len() {
        lemma_first_non_system(p, k);
    }
    if turns > max_turns {
        let cut = ((turns - max_turns) * 2) as int;
        lemma_first_non_system(p, k);
        lemma_cut_after_leading(p, k, cut);
        let t = trimmed(p, max_turns);
        assert(t == p.subrange(0, k) + p.subrange(k + cut, p.len() as int));
        assert(t.len() == p.len() - cut);
        if let Some(q) = prompt {
            assert(t[0] == p[0]);
            assert(p[0] == s[0]);
        }
        assert forall|j: int| k <= j < t.len() implies !is_system(#[trigger] t[j]) by {
            assert(t[j] == p[j + cut]);
        }
    } else {
        if let Some(q) = prompt {
            assert(p[0] == s[0]);
        }
    }
}

/// Every system message comes before every other message.
pub open spec fn systems_lead(s: Seq<ChatMessage>) -> bool {
    forall|i: int, j: int|
        #![trigger s[i], s[j]]
        0 <= i < j < s.len() && is_system(s[j]) ==> is_system(s[i])
}

proof fn lemma_first_non_system_props(s: Seq<ChatMessage>)
    ensures
        first_non_system(s) <= s.len(),
        forall|j: int| 0 <= j < first_non_system(s) ==> is_system(#[trigger] s[j]),
        first_non_system(s) < s.len() ==> !is_system(s[first_non_system(s) as int]),
    decreases s.len(),
{
    if s.len() > 0 && is_system(s[0]) {
        let t = s.skip(1);
        lemma_first_non_system_props(t);
        assert forall|j: int| 0 <= j < first_non_system(s) implies is_system(#[trigger] s[j]) by {
            if j > 0 {
                assert(s[j] == t[j - 1]);
            }
        }
        if first_non_system(s) < s.len() {
            assert(s[first_non_system(s) as int] == t[first_non_system(t) as int]);
        }
    }
}

/// Appending a non-system message to a history whose system messages all
/// come first, then trimming, keeps them first; the non-system messages
/// left number at most `2 * max_turns`, plus one while a turn is
/// incomplete, and their count keeps the parity it had after the append.
pub proof fn lemma_append_bound(s: Seq<ChatMessage>, m: ChatMessage, max_turns: nat)
    requires
        systems_lead(s),
        !is_system(m),
    ensures
        systems_lead(trimmed(s.push(m), max_turns)),
        non_system_count(s.push(m)) == non_system_count(s) + 1,
        non_system_count(trimmed(s.push(m), max_turns)) <= 2 * max_turns + non_system_count(
            trimmed(s.push(m), max_turns),
        ) % 2,
        non_system_count(trimmed(s.push(m), max_turns)) % 2 == non_system_count(s.push(m)) % 2,
{
    let p = s.push(m);
    assert(p.drop_last() =~= s);
    assert(p.last() == m);
    lemma_first_non_system_props(p);
    let k = first_non_system(p) as int;
    assert forall|j: int| k <= j < p.len() implies !is_system(#[trigger] p[j]) by {
        if is_system(p[j]) {
            if j == p.len() - 1 {
                assert(p[j] == m);
            } else {
                assert(p[k] == s[k] && p[j] == s[j]);
                assert(is_system(s[k]));
            }
        }
    }
    lemma_cut_after_leading(p, k, 0);
    let turns = non_system_count(p) / 2;
    if turns > max_turns {
        let cut = ((turns - max_turns) * 2) as int;
        lemma_cut_after_leading(p, k, cut);
        let t = trimmed(p, max_turns);
        assert(t == p.subrange(0, k) + p.subrange(k + cut, p.len() as int));
        assert forall|i: int, j: int|
            #![trigger t[i], t[j]]
            0 <= i < j < t.len() && is_system(t[j]) implies is_system(t[i]) by {
            if j >= k {
                assert(t[j] == p[j + cut]);
            } else {
                assert(t[i] == p[i]);
            }
        }
    } else {
        assert forall|i: int, j: int|
            #![trigger p[i], p[j]]
            0 <= i < j < p.len() && is_system(p[j]) implies is_system(p[i]) by {
            assert(j < k);
        }
    }
}

/// What one append leaves, where the system messages all came first: they
/// still do; at most `2 * max_turns` non-system messages remain, plus one
/// while a turn is incomplete; and the count has the parity of one more than
/// before (so a reply that completes a turn leaves at most `2 * max_turns`).
pub open spec fn turn_bound(before: Seq<ChatMessage>, after: Seq<ChatMessage>, max_turns: nat) -> bool {
    &&& systems_lead(after)
    &&& non_system_count(after) <= 2 * max_turns + non_system_count(after) % 2
    &&& non_system_count(after) % 2 == (non_system_count(before) + 1) % 2
}

/// The history after appending each of `ms` in turn, trimming after each.
pub open spec fn after_appends(s: Seq<ChatMessage>, ms: Seq<ChatMessage>, max_turns: nat) -> Seq<
    ChatMessage,
>
    decreases ms.len(),
{
    if ms.len() == 0 {
        s
    } else {
        trimmed(after_appends(s, ms.drop_last(), max_turns).push(ms.last()), max_turns)
    }
}

/// After any non-empty sequence of user and assistant appends to a history
/// whose system messages all come first, they still come first, and at
/// most `2 * max_turns` non-system messages remain, plus one while the last
/// turn is incomplete.
pub proof fn lemma_appends_keep_bound(s: Seq<ChatMessage>, ms: Seq<ChatMessage>, max_turns: nat)
    requires
        systems_lead(s),
        ms.len() > 0,
        forall|j: int| 0 <= j < ms.len() ==> !is_system(#[trigger] ms[j]),
    ensures
        systems_lead(after_appends(s, ms, max_turns)),
        non_system_count(after_appends(s, ms, max_turns)) <= 2 * max_turns + non_system_count(
            after_appends(s, ms, max_turns),
        ) % 2,
    decreases ms.len(),
{
    let d = ms.drop_last();
    assert forall|j: int| 0 <= j < d.len() implies !is_system(#[trigger] d[j]) by {
        assert(d[j] == ms[j]);
    }
    if d.len() > 0 {
        lemma_appends_keep_bound(s, d, max_turns);
    }
    assert(ms.last() == ms[ms.len() - 1]);
    lemma_append_bound(after_appends(s, d, max_turns), ms.last(), max_turns);
}

/// A cleared history that kept its system prompt in place is exactly the
/// prompt, or empty where none is configured.
pub proof fn lemma_clear_keeps_prompt(s: Seq<ChatMessage>, prompt: Option<String>)
    requires
        prompt_in_place(s, prompt),
    ensures
        prompt_in_place(cleared(s), prompt),
        cleared(s).len() == if prompt.is_some() {
            1nat
        } else {
            0nat
        },
{
    match prompt {
        Some(p) => {
            assert(is_system(s[0]));
            assert(cleared(s) == seq![s[0]]);
        },
        None => {
            lemma_no_system_found(s);
        },
    }
}

proof fn lemma_no_system_found(s: Seq<ChatMessage>)
    requires
        forall|j: int| 0 <= j < s.len() ==> !is_system(#[trigger] s[j]),
    ensures
        first_system(s) == Option::<ChatMessage>::None,
    decreases s.len(),
{
    if s.len() > 0 {
        let t = s.skip(1);
        assert forall|j: int| 0 <= j < t.len() implies !is_system(#[trigger] t[j]) by {
            assert(t[j] == s[j + 1]);
        }
        assert(!is_system(s[0]));
        lemma_no_system_found(t);
    }
}

proof fn lemma_first_system_at(s: Seq<ChatMessage>, k: int)
    requires
        0 <= k < s.len(),
        forall|j: int| 0 <= j < k ==> !is_system(#[trigger] s[j]),
        is_system(s[k]),
    ensures
        first_system(s) == Some(s[k]),
    decreases k,
{
    if k > 0 {
        let t = s.skip(1);
        assert forall|j: int| 0 <= j < k - 1 implies !is_system(#[trigger] t[j]) by {
            assert(t[j] == s[j + 1]);
        }
        assert(!is_system(s[0]));
        assert(t[k - 1] == s[k]);
        lemma_first_system_at(t, k - 1);
    }
}

/// A copy of a history.
pub fn clone_messages(v: &Vec<ChatMessage>) -> (r: Vec<ChatMessage>)
    ensures
        r@ == v@,
{
    let r = v.clone();
    proof {
        assert forall|i: int| 0 <= i < r@.len() implies r@[i] == v@[i] by {
            assert(cloned::<ChatMessage>(v[i], r[i]));
        }
        assert(r@ =~= v@);
    }
    r
}

pub struct SessionView {
    pub id: Seq<char>,
    pub messages: Seq<ChatMessage>,
    pub config: SessionConfig,
}

pub struct Session {
    pub id: String,
    pub messages: Vec<ChatMessage>,
    pub config: SessionConfig,
}

impl View for Session {
    type V = SessionView;

    open spec fn view(&self) -> SessionView {
        SessionView { id: self.id@, messages: self.messages@, config: self.config }
    }
}

impl Clone for Session {
    fn clone(&self) -> (r: Self)
        ensures
            r@ == self@,
    {
        Session {
            id: self.id.clone(),
            messages: clone_messages(&self.messages),
            config: self.config.clone(),
        }
    }
}

impl Session {
    pub fn new(id: String, config: SessionConfig) -> (r: Self)
        ensures
            r.id == id,
            r.config == config,
            r.messages@ == initial_messages(config),
            prompt_in_place(r.messages@, config.system_prompt),
    {
        let mut messages: Vec<ChatMessage> = Vec::new();
        if let Some(system_prompt) = &config.system_prompt {
            messages.push(ChatMessage { role: MessageRole::System, content: system_prompt.clone() });
        }
        proof {
            assert(messages@ =~= initial_messages(config));
        }
        Session { id, messages, config }
    }

    fn push_and_trim(&mut self, role: MessageRole, content: String)
        requires
            role != MessageRole::System,
        ensures
            final(self).id == old(self).id,
            final(self).config == old(self).config,
            final(self).messages@ == trimmed(
                old(self).messages@.push(ChatMessage { role, content }),
                old(self).config.max_turns as nat,
            ),
            prompt_in_place(old(self).messages@, old(self).config.system_prompt) ==> prompt_in_place(
                final(self).messages@,
                old(self).config.system_prompt,
            ),
            systems_lead(old(self).messages@) ==> turn_bound(
                old(self).messages@,
                final(self).messages@,
                old(self).config.max_turns as nat,
            ),
    {
        let ghost before = self.messages@;
        self.messages.push(ChatMessage { role, content });
        self.trim_history();
        proof {
            if systems_lead(before) {
                lemma_append_bound(
                    before,
                    ChatMessage { role, content },
                    old(self).config.max_turns as nat,
                );
            }
            if prompt_in_place(before, old(self).config.system_prompt) {
                lemma_append_then_trim(
                    before,
                    ChatMessage { role, content },
                    old(self).config.system_prompt,
                    old(self).config.max_turns as nat,
                );
            }
        }
    }

    /// Appends a user message, then trims.
    pub fn add_user_message(&mut self, content: String)
        ensures
            final(self).id == old(self).id,
            final(self).config == old(self).config,
            final(self).messages@ == trimmed(
                old(self).messages@.push(ChatMessage { role: MessageRole::User, content }),
                old(self).config.max_turns as nat,
            ),
            prompt_in_place(old(self).messages@, old(self).config.system_prompt) ==> prompt_in_place(
                final(self).messages@,
                old(self).config.system_prompt,
            ),
            systems_lead(old(self).messages@) ==> turn_bound(
                old(self).messages@,
                final(self).messages@,
                old(self).config.max_turns as nat,
            ),
    {
        self.push_and_trim(MessageRole::User, content);
    }

    /// Appends an assistant message, then trims.
    pub fn add_assistant_message(&mut self, content: String)
        ensures
            final(self).id == old(self).id,
            final(self).config == old(self).config,
            final(self).messages@ == trimmed(
                old(self).messages@.push(ChatMessage { role: MessageRole::Assistant, content }),
                old(self).config.max_turns as nat,
            ),
            prompt_in_place(old(self).messages@, old(self).config.system_prompt) ==> prompt_in_place(
                final(self).messages@,
                old(self).config.system_prompt,
            ),
            systems_lead(old(self).messages@) ==> turn_bound(
                old(self).messages@,
                final(self).messages@,
                old(self).config.max_turns as nat,
            ),
    {
        self.push_and_trim(MessageRole::Assistant, content);
    }

    pub fn get_messages(&self) -> (r: &[ChatMessage])
        ensures
            r@ == self.messages@,
    {
        self.messages.as_slice()
    }

    /// Drops every message but the first system message.
    pub fn clear(&mut self)
        ensures
            final(self).id == old(self).id,
            final(self).config == old(self).config,
            final(self).messages@ == cleared(old(self).messages@),
            prompt_in_place(old(self).messages@, old(self).config.system_prompt) ==> (
            prompt_in_place(final(self).messages@, old(self).config.system_prompt)
                && final(self).messages@.len() == if old(self).config.system_prompt.is_some() {
                1nat
            } else {
                0nat
            }),
    {
        let mut i: usize = 0;
        let mut found: Option<ChatMessage> = None;
        while i < self.messages.len() && found.is_none()
            invariant
                i <= self.messages@.len(),
                self.messages@ == old(self).messages@,
                found.is_none() ==> forall|j: int| 0 <= j < i ==> !is_system(#[trigger] self.messages@[j]),
                found.is_some() ==> first_system(self.messages@) == found,
            decreases self.messages@.len() - i + if found.is_none() {
                1int
            } else {
                0int
            },
        {
            if self.messages[i].role == MessageRole::System {
                proof {
                    lemma_first_system_at(self.messages@, i as int);
                }
                found = Some(self.messages[i].clone());
            } else {
                i = i + 1;
            }
        }
        proof {
            if found.is_none() {
                lemma_no_system_found(self.messages@);
            }
            if prompt_in_place(old(self).messages@, old(self).config.system_prompt) {
                lemma_clear_keeps_prompt(old(self).messages@, old(self).config.system_prompt);
            }
        }
        self.messages.clear();
        if let Some(msg) = found {
            self.messages.push(msg);
        }
        proof {
            assert(self.messages@ =~= cleared(old(self).messages@));
        }
    }

    /// Drops the oldest whole turns beyond `config.max_turns`, right after
    /// the leading system messages.
    pub fn trim_history(&mut self)
        ensures
            final(self).id == old(self).id,
            final(self).config == old(self).config,
            final(self).messages@ == trimmed(old(self).messages@, old(self).config.max_turns as nat),
    {
        let ghost s = self.messages@;
        let len = self.messages.len();
        let mut count: usize = 0;
        let mut i: usize = 0;
        while i < len
            invariant
                len == s.len(),
                self.messages@ == s,
                i <= len,
                count == non_system_count(s.take(i as int)),
                count <= i,
            decreases len - i,
        {
            proof {
                assert(s.take(i + 1).drop_last() =~= s.take(i as int));
            }
            if self.messages[i].role != MessageRole::System {
                count = count + 1;
            }
            i = i + 1;
        }
        proof {
            assert(s.take(len as int) =~= s);
        }
        let turns = count / 2;
        if turns > self.config.max_turns {
            let cut = (turns - self.config.max_turns) * 2;
            let mut k: usize = 0;
            while k < len && self.messages[k].role == MessageRole::System
                invariant
                    len == s.len(),
                    self.messages@ == s,
                    k <= len,
                    forall|j: int| 0 <= j < k ==> is_system(#[trigger] s[j]),
                decreases len - k,
            {
                k = k + 1;
            }
            proof {
                lemma_first_non_system(s, k as int);
                let a = s.subrange(0, k as int);
                let b = s.subrange(k as int, len as int);
                assert(s =~= a + b);
                lemma_count_concat(a, b);
                assert forall|j: int| 0 <= j < a.len() implies is_system(#[trigger] a[j]) by {
                    assert(a[j] == s[j]);
                }
                lemma_count_bounds(a);
                lemma_count_bounds(b);
            }
            let mut tail = self.messages.split_off(k + cut);
            let _dropped = self.messages.split_off(k);
            self.messages.append(&mut tail);
            proof {
                assert(self.messages@ =~= trimmed(s, old(self).config.max_turns as nat));
            }
        }
    }
}

/// The conversation store: sessions under their ids.
pub type SessionManager = KeyedStore<Session>;

pub fn new_session_manager() -> (r: SessionManager)
    ensures
        manager_wf(&r),
        r@ == Map::<Seq<char>, Session>::empty(),
{
    KeyedStore::new()
}

/// What `get_or_create` leaves in the store and hands back: the stored
/// session where `id` is present, else a new session stored under `id`.
pub open spec fn get_or_create_post(
    before: Map<Seq<char>, Session>,
    id: Seq<char>,
    config: SessionConfig,
    after: Map<Seq<char>, Session>,
    r: SessionView,
) -> bool {
    if before.contains_key(id) {
        after == before && r == before[id]@
    } else {
        &&& after.contains_key(id)
        &&& after == before.insert(id, after[id])
        &&& r == after[id]@
        &&& r.id == id
        &&& r.config == config
        &&& r.messages == initial_messages(config)
    }
}

/// What `sync_messages` leaves in the store and hands back: the session under
/// `id` now holds `messages` trimmed by `config`.
pub open spec fn sync_post(
    before: Map<Seq<char>, Session>,
    id: Seq<char>,
    messages: Seq<ChatMessage>,
    config: SessionConfig,
    after: Map<Seq<char>, Session>,
    r: SessionView,
) -> bool {
    &&& after.contains_key(id)
    &&& after == before.insert(id, after[id])
    &&& r == after[id]@
    &&& r.id == id
    &&& r.config == config
    &&& r.messages == trimmed(messages, config.max_turns as nat)
}

/// Calling `get_or_create` twice with the same id, with nothing in between,
/// hands back the same session both times and creates no second entry.
pub proof fn lemma_get_or_create_twice(
    m0: Map<Seq<char>, Session>,
    id: Seq<char>,
    c1: SessionConfig,
    m1: Map<Seq<char>, Session>,
    r1: SessionView,
    c2: SessionConfig,
    m2: Map<Seq<char>, Session>,
    r2: SessionView,
)
    requires
        get_or_create_post(m0, id, c1, m1, r1),
        get_or_create_post(m1, id, c2, m2, r2),
    ensures
        r2 == r1,
        m2 == m1,
        m1.contains_key(id),
{
}

/// After `sync_messages`, looking the id up finds exactly the given messages,
/// trimmed by the given configuration.
pub proof fn lemma_sync_then_get(
    before: Map<Seq<char>, Session>,
    id: Seq<char>,
    messages: Seq<ChatMessage>,
    config: SessionConfig,
    after: Map<Seq<char>, Session>,
    r: SessionView,
)
    requires
        sync_post(before, id, messages, config, after, r),
    ensures
        after.contains_key(id),
        after[id]@.messages == trimmed(messages, config.max_turns as nat),
        after[id]@.config == config,
{
}

/// The store is well formed and each session sits under its own id.
pub open spec fn manager_wf(m: &SessionManager) -> bool {
    &&& m.wf()
    &&& forall|k: Seq<char>| #[trigger] m@.contains_key(k) ==> m@[k].id@ == k
}

/// Operations on a [`SessionManager`].
pub struct SessionHelper;

impl SessionHelper {
    /// The session under `session_id`, created from `config` if absent.
    pub fn get_or_create(manager: &mut SessionManager, session_id: &str, config: SessionConfig) -> (r:
        Session)
        requires
            manager_wf(old(manager)),
        ensures
            manager_wf(final(manager)),
            get_or_create_post(old(manager)@, session_id@, config, final(manager)@, r@),
    {
        match manager.get(session_id) {
            Some(s) => s.clone(),
            None => {
                let session = Session::new(session_id.to_string(), config);
                manager.insert(session.id.clone(), session.clone());
                proof {
                    assert(final(manager)@.contains_key(session_id@));
                }
                session
            },
        }
    }

    pub fn get(manager: &SessionManager, session_id: &str) -> (r: Option<Session>)
        requires
            manager_wf(manager),
        ensures
            match r {
                Some(s) => manager@.contains_key(session_id@) && s@ == manager@[session_id@]@,
                None => !manager@.contains_key(session_id@),
            },
    {
        match manager.get(session_id) {
            Some(s) => Some(s.clone()),
            None => None,
        }
    }

    /// Replaces the history under `session_id` (creating the session if
    /// absent), applies `config`, trims, and returns the result.
    pub fn sync_messages(
        manager: &mut SessionManager,
        session_id: &str,
        messages: Vec<ChatMessage>,
        config: SessionConfig,
    ) -> (r: Session)
        requires
            manager_wf(old(manager)),
        ensures
            manager_wf(final(manager)),
            sync_post(old(manager)@, session_id@, messages@, config, final(manager)@, r@),
    {
        let mut session = match manager.get(session_id) {
            Some(s) => s.clone(),
            None => Session::new(session_id.to_string(), config.clone()),
        };
        session.messages = messages;
        session.config = config;
        session.trim_history();
        manager.insert(session.id.clone(), session.clone());
        session
    }

    /// Stores `session` under its id, replacing any session there.
    pub fn update(manager: &mut SessionManager, session: Session)
        requires
            manager_wf(old(manager)),
        ensures
            manager_wf(final(manager)),
            final(manager)@ == old(manager)@.insert(session.id@, session),
    {
        manager.insert(session.id.clone(), session);
    }

    /// Removes the session under `session_id`; false where there was none.
    pub fn remove(manager: &mut SessionManager, session_id: &str) -> (r: bool)
        requires
            manager_wf(old(manager)),
        ensures
            manager_wf(final(manager)),
            r == old(manager)@.contains_key(session_id@),
            final(manager)@ == old(manager)@.remove(session_id@),
    {
        manager.remove(session_id).is_some()
    }

    /// Clears the history under `session_id` in place, keeping its system
    /// message; nothing happens where the id is absent.
    pub fn clear_history(manager: &mut SessionManager, session_id: &str)
        requires
            manager_wf(old(manager)),
        ensures
            manager_wf(final(manager)),
            !old(manager)@.contains_key(session_id@) ==> final(manager)@ == old(manager)@,
            old(manager)@.contains_key(session_id@) ==> {
                &&& final(manager)@.contains_key(session_id@)
                &&& final(manager)@ == old(manager)@.insert(
                    session_id@,
                    final(manager)@[session_id@],
                )
                &&& final(manager)@[session_id@]@ == (SessionView {
                    messages: cleared(old(manager)@[session_id@]@.messages),
                    ..old(manager)@[session_id@]@
                })
            },
    {
        if let Some(s) = manager.get(session_id) {
            let mut session = s.clone();
            session.clear();
            manager.insert(session.id.clone(), session);
        }
    }
}

} // verus!
