//! The request flow of the gateway, without its transport: preparing a
//! streamed generation, storing its reply, the frames of the event stream,
//! and the replies of the file and session endpoints.
use vstd::prelude::*;
use crate::error::{AppError, RemoveSessionError};
use crate::file_parser::{build_file_context, drain_post, FileCache};
use crate::session::{
    clone_messages, initial_messages, manager_wf, trimmed, ChatMessage, MessageRole, Session,
    SessionConfig, SessionHelper, SessionManager,
};
use crate::model::{model_of, ChatMessage as TemplateMessage, ModelName};
use crate::text::{lower_of, new_id, owned};
use crate::types::{
    GetSessionResponse, InferenceResponse, RemoveSessionResponse, SyncSessionRequest,
    SyncSessionResponse,
};

verus! {

#[derive(Debug)]
pub struct HealthResponse {
    pub is_healthy: bool,
    pub status: String,
}

pub fn healthy() -> (r: HealthResponse)
    ensures
        r.is_healthy,
        r.status@ == "OK"@,
{
    HealthResponse { is_healthy: true, status: owned("OK") }
}

/// The reply of a plain generation: its text, or a fixed notice where it failed.
pub fn inference_reply(text: Option<String>) -> (r: InferenceResponse)
    ensures
        r.session_id is None,
        match text {
            Some(t) => r.text == t,
            None => r.text@ == "Inference failed"@,
        },
{
    let text = match text {
        Some(t) => t,
        None => owned("Inference failed"),
    };
    InferenceResponse { text, session_id: None }
}

/// The configuration that sessions of the streaming endpoint are created with.
pub open spec fn default_config() -> SessionConfig {
    SessionConfig { max_turns: 10, system_prompt: None }
}

/// The history and configuration a request continues: those stored under
/// `id`, or those of a new session.
pub open spec fn stored_or_new(before: Map<Seq<char>, Session>, id: Seq<char>) -> (
    Seq<ChatMessage>,
    SessionConfig,
) {
    if before.contains_key(id) {
        (before[id]@.messages, before[id].config)
    } else {
        (initial_messages(default_config()), default_config())
    }
}

pub open spec fn user_message(c: String) -> ChatMessage {
    ChatMessage { role: MessageRole::User, content: c }
}

/// The history handed to the model: the stored one, then the uploads'
/// context as a user message where there is one, then the prompt, each
/// append followed by trimming.
pub open spec fn prepared_history(
    base: Seq<ChatMessage>,
    context: Option<String>,
    prompt: String,
    max_turns: nat,
) -> Seq<ChatMessage> {
    let with_context = match context {
        Some(c) => trimmed(base.push(user_message(c)), max_turns),
        None => base,
    };
    trimmed(with_context.push(user_message(prompt)), max_turns)
}

pub open spec fn text_view(t: Option<String>) -> Option<Seq<char>> {
    match t {
        Some(s) => Some(s@),
        None => None,
    }
}

/// A streamed generation, ready to start.
pub struct PreparedStream {
    /// The session the generation belongs to.
    pub session_id: String,
    /// The context message composed from the uploads, if there were any.
    pub file_context: Option<String>,
    /// The history to hand to the model.
    pub messages: Vec<ChatMessage>,
}

/// Prepares a streamed generation: finds or creates the session, consumes
/// the uploads into a context message, appends the prompt, and stores the
/// session before any generation starts.
pub fn prepare_stream(
    sessions: &mut SessionManager,
    files: &mut FileCache,
    session_id: Option<String>,
    prompt: String,
) -> (r: PreparedStream)
    requires
        manager_wf(old(sessions)),
        old(files).wf(),
    ensures
        manager_wf(final(sessions)),
        final(files).wf(),
        session_id matches Some(id) ==> r.session_id == id,
        drain_post(old(files).entries(), final(files).entries(), text_view(r.file_context)),
        final(sessions)@.contains_key(r.session_id@),
        final(sessions)@ == old(sessions)@.insert(
            r.session_id@,
            final(sessions)@[r.session_id@],
        ),
        final(sessions)@[r.session_id@]@.messages == r.messages@,
        final(sessions)@[r.session_id@]@.config == stored_or_new(
            old(sessions)@,
            r.session_id@,
        ).1,
        r.messages@ == prepared_history(
            stored_or_new(old(sessions)@, r.session_id@).0,
            r.file_context,
            prompt,
            stored_or_new(old(sessions)@, r.session_id@).1.max_turns as nat,
        ),
{
    let id = match session_id {
        Some(s) => s,
        None => new_id(),
    };
    let mut session = SessionHelper::get_or_create(sessions, id.as_str(), SessionConfig::default());
    let file_context = build_file_context(files);
    match &file_context {
        Some(c) => session.add_user_message(c.clone()),
        None => {},
    }
    session.add_user_message(prompt);
    let messages = clone_messages(&session.messages);
    SessionHelper::update(sessions, session);
    PreparedStream { session_id: id, file_context, messages }
}

/// Starts a streamed generation: the requested model name is resolved
/// first (in any case, aliases included), and a name that resolves to no
/// model is refused before any session or upload is touched; otherwise the
/// resolved model comes back with the stream, prepared as `prepare_stream`
/// does.
pub fn begin_stream(
    sessions: &mut SessionManager,
    files: &mut FileCache,
    model: &str,
    session_id: Option<String>,
    prompt: String,
) -> (r: Result<(ModelName, PreparedStream), AppError>)
    requires
        manager_wf(old(sessions)),
        old(files).wf(),
    ensures
        manager_wf(final(sessions)),
        final(files).wf(),
        model_of(lower_of(model@)) is None ==> (r matches Err(e) && e is InvalidRequest),
        model_of(lower_of(model@)) is None ==> final(sessions)@ == old(sessions)@,
        model_of(lower_of(model@)) is None ==> final(files).entries() == old(files).entries(),
        model_of(lower_of(model@)) matches Some(t) ==> (r matches Ok((m, _)) && m == t),
        r matches Ok((_, p)) ==> session_id matches Some(id) ==> p.session_id == id,
        r matches Ok((_, p)) ==> drain_post(
            old(files).entries(),
            final(files).entries(),
            text_view(p.file_context),
        ),
        r matches Ok((_, p)) ==> final(sessions)@ == old(sessions)@.insert(
            p.session_id@,
            final(sessions)@[p.session_id@],
        ),
        r matches Ok((_, p)) ==> final(sessions)@.contains_key(p.session_id@),
        r matches Ok((_, p)) ==> final(sessions)@[p.session_id@]@.messages == p.messages@,
        r matches Ok((_, p)) ==> p.messages@ == prepared_history(
            stored_or_new(old(sessions)@, p.session_id@).0,
            p.file_context,
            prompt,
            stored_or_new(old(sessions)@, p.session_id@).1.max_turns as nat,
        ),
{
    match ModelName::from_str(model) {
        None => {
            let mut msg = owned("Unknown model: ");
            msg.append(model);
            Err(AppError::InvalidRequest(msg))
        },
        Some(t) => Ok((t, prepare_stream(sessions, files, session_id, prompt))),
    }
}

/// Stores a finished (or cut short) reply as an assistant message of the
/// session; an empty reply stores nothing.
pub fn finish_stream(sessions: &mut SessionManager, session_id: &str, full_response: String)
    requires
        manager_wf(old(sessions)),
    ensures
        manager_wf(final(sessions)),
        full_response@.len() == 0 ==> final(sessions)@ == old(sessions)@,
        full_response@.len() > 0 ==> {
            &&& final(sessions)@.contains_key(session_id@)
            &&& final(sessions)@ == old(sessions)@.insert(
                session_id@,
                final(sessions)@[session_id@],
            )
            &&& final(sessions)@[session_id@]@.config == stored_or_new(
                old(sessions)@,
                session_id@,
            ).1
            &&& final(sessions)@[session_id@]@.messages == trimmed(
                stored_or_new(old(sessions)@, session_id@).0.push(
                    ChatMessage { role: MessageRole::Assistant, content: full_response },
                ),
                stored_or_new(old(sessions)@, session_id@).1.max_turns as nat,
            )
        },
{
    if full_response.as_str().unicode_len() == 0 {
        return ;
    }
    let mut session = SessionHelper::get_or_create(sessions, session_id, SessionConfig::default());
    session.add_assistant_message(full_response);
    SessionHelper::update(sessions, session);
}

/// Removes a session: the reply where it existed, else the error naming it.
pub fn remove_session(sessions: &mut SessionManager, session_id: String) -> (r: Result<
    RemoveSessionResponse,
    RemoveSessionError,
>)
    requires
        manager_wf(old(sessions)),
    ensures
        manager_wf(final(sessions)),
        final(sessions)@ == old(sessions)@.remove(session_id@),
        match r {
            Ok(d) => old(sessions)@.contains_key(session_id@) && d.session_id == session_id
                && d.cleared,
            Err(e) => !old(sessions)@.contains_key(session_id@) && e.session_id == session_id
                && e.error@ == "Session does not exist"@,
        },
{
    if SessionHelper::remove(sessions, session_id.as_str()) {
        Ok(RemoveSessionResponse { session_id, cleared: true })
    } else {
        Err(RemoveSessionError { error: owned("Session does not exist"), session_id })
    }
}

/// The stored history of a session; an absent session is reported as
/// such, with no messages.
pub fn get_session(sessions: &SessionManager, session_id: String) -> (r: GetSessionResponse)
    requires
        manager_wf(sessions),
    ensures
        r.session_id == session_id,
        r.exists == sessions@.contains_key(session_id@),
        r.exists ==> r.messages@ == sessions@[session_id@]@.messages,
        !r.exists ==> r.messages@.len() == 0,
{
    match SessionHelper::get(sessions, session_id.as_str()) {
        Some(s) => GetSessionResponse { session_id, messages: s.messages, exists: true },
        None => GetSessionResponse { session_id, messages: Vec::new(), exists: false },
    }
}

/// Replaces a session's history with the client's copy, trimmed by the
/// default configuration.
pub fn sync_session(sessions: &mut SessionManager, req: SyncSessionRequest) -> (r:
    SyncSessionResponse)
    requires
        manager_wf(old(sessions)),
    ensures
        manager_wf(final(sessions)),
        final(sessions)@.contains_key(req.session_id@),
        final(sessions)@ == old(sessions)@.insert(
            req.session_id@,
            final(sessions)@[req.session_id@],
        ),
        final(sessions)@[req.session_id@]@.messages == trimmed(req.messages@, 10),
        final(sessions)@[req.session_id@]@.config == default_config(),
        r.session_id == req.session_id,
        r.synced,
        r.message_count == req.messages@.len(),
{
    let message_count = req.messages.len();
    let _ = SessionHelper::sync_messages(
        sessions,
        req.session_id.as_str(),
        req.messages,
        SessionConfig::default(),
    );
    SyncSessionResponse { session_id: req.session_id, synced: true, message_count }
}

pub open spec fn hex_digit(d: nat) -> char {
    if d < 10 {
        ((d + 48) as u8) as char
    } else {
        ((d + 87) as u8) as char
    }
}

/// How one character stands inside a JSON string: quote, backslash and the
/// control characters below 0x20 are escaped, the short forms where JSON has
/// them and `\u00XX` (lowercase hex) otherwise; any other character stands
/// for itself.
pub open spec fn json_escape(c: char) -> Seq<char> {
    let u = c as u32;
    if u == 8 {
        seq!['\\', 'b']
    } else if u == 9 {
        seq!['\\', 't']
    } else if u == 10 {
        seq!['\\', 'n']
    } else if u == 12 {
        seq!['\\', 'f']
    } else if u == 13 {
        seq!['\\', 'r']
    } else if c == '"' {
        seq!['\\', '"']
    } else if c == '\\' {
        seq!['\\', '\\']
    } else if u < 32 {
        seq!['\\', 'u', '0', '0', hex_digit((u / 16) as nat), hex_digit((u % 16) as nat)]
    } else {
        seq![c]
    }
}

pub open spec fn json_escaped(s: Seq<char>) -> Seq<char>
    decreases s.len(),
{
    if s.len() == 0 {
        Seq::empty()
    } else {
        json_escaped(s.drop_last()) + json_escape(s.last())
    }
}

/// The JSON string literal that holds `s`.
pub open spec fn json_quoted(s: Seq<char>) -> Seq<char> {
    seq!['"'] + json_escaped(s) + seq!['"']
}

/// Relies on `serde_json::to_string` applied to a `str`: it writes the
/// string between quotes, escaping quote, backslash and the control
/// characters below 0x20 (ser.rs, `format_escaped_str_contents` and its
/// `ESCAPE` table). Writing into a `Vec` cannot fail, so the error arm is
/// never taken.
#[verifier::external_body]
fn json_string(s: &str) -> (r: String)
    ensures
        r@ == json_quoted(s@),
{
    match serde_json::to_string(s) {
        Ok(v) => v,
        Err(_) => String::new(),
    }
}

/// One message from a stream's worker to the writer of the event stream.
#[derive(Debug)]
pub enum StreamMessage {
    /// A fragment of generated text.
    Token(String),
    /// The id of the session the generation belongs to.
    Session(String),
    /// The end of the stream.
    Done,
}

/// One event of the stream sent to the client: an optional event name and
/// its data.
#[derive(Debug)]
pub struct SseFrame {
    pub event: Option<String>,
    pub data: String,
}

/// The content object carrying a token.
pub open spec fn content_json(token: Seq<char>) -> Seq<char> {
    "{\"content\":"@ + json_quoted(token) + "}"@
}

/// The session-information object for a session id.
pub open spec fn session_info_json(id: Seq<char>) -> Seq<char> {
    "{\"session_id\":"@ + json_quoted(id) + ",\"type\":\"session_info\"}"@
}

/// The error object carrying a message.
pub open spec fn error_json(message: Seq<char>) -> Seq<char> {
    "{\"error\":"@ + json_quoted(message) + "}"@
}

/// The frame for one message of the worker: every token as a content
/// object, the session id as a `session` event, the end as `[DONE]`.
pub fn sse_frame(message: &StreamMessage) -> (r: SseFrame)
    ensures
        match message {
            StreamMessage::Token(t) => r.event is None && r.data@ == content_json(t@),
            StreamMessage::Session(id) => (r.event matches Some(e) && e@ == "session"@) && r.data@
                == session_info_json(id@),
            StreamMessage::Done => r.event is None && r.data@ == "[DONE]"@,
        },
{
    match message {
        StreamMessage::Token(t) => {
            let mut data = owned("{\"content\":");
            data.append(json_string(t.as_str()).as_str());
            data.append("}");
            SseFrame { event: None, data }
        },
        StreamMessage::Session(id) => {
            let mut data = owned("{\"session_id\":");
            data.append(json_string(id.as_str()).as_str());
            data.append(",\"type\":\"session_info\"}");
            SseFrame { event: Some(owned("session")), data }
        },
        StreamMessage::Done => SseFrame { event: None, data: owned("[DONE]") },
    }
}

/// The frame that reports `message` as an error.
pub fn error_frame(message: &str) -> (r: SseFrame)
    ensures
        r.event matches Some(e) && e@ == "error"@,
        r.data@ == error_json(message@),
{
    let mut data = owned("{\"error\":");
    data.append(json_string(message).as_str());
    data.append("}");
    SseFrame { event: Some(owned("error")), data }
}

/// The name of a role in the chat template.
pub open spec fn role_name(r: MessageRole) -> Seq<char> {
    match r {
        MessageRole::User => "user"@,
        MessageRole::Assistant => "assistant"@,
        MessageRole::System => "system"@,
    }
}

/// A history in the form the chat template reads: each role by its name.
pub fn template_messages(msgs: &[ChatMessage]) -> (r: Vec<TemplateMessage>)
    ensures
        r@.len() == msgs@.len(),
        forall|i: int|
            #![trigger r@[i]]
            0 <= i < msgs@.len() ==> r@[i].role@ == role_name(msgs@[i].role) && r@[i].content
                == msgs@[i].content,
{
    let mut out: Vec<TemplateMessage> = Vec::new();
    let mut i: usize = 0;
    while i < msgs.len()
        invariant
            i <= msgs@.len(),
            out@.len() == i,
            forall|j: int|
                #![trigger out@[j]]
                0 <= j < i ==> out@[j].role@ == role_name(msgs@[j].role) && out@[j].content
                    == msgs@[j].content,
        decreases msgs@.len() - i,
    {
        let m = &msgs[i];
        let role = match m.role {
            MessageRole::User => owned("user"),
            MessageRole::Assistant => owned("assistant"),
            MessageRole::System => owned("system"),
        };
        out.push(TemplateMessage { role, content: m.content.clone() });
        i = i + 1;
    }
    out
}

} // verus!
