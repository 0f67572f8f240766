//! Model selection: the supported models and their names, the Llama 3 chat
//! template, the dispatcher that keeps at most one model loaded, and the
//! chunks that a generation streams out.
use vstd::prelude::*;
use crate::error::AppError;
use crate::text::{lower_of, owned, str_eq, to_lowercase};

verus! {

#[derive(Debug, Clone, Copy, PartialEq, Eq, Hash, Structural)]
pub enum ModelName {
    Llama32_1B,
    Llama32_3B,
}

impl Default for ModelName {
    fn default() -> (r: Self)
        ensures
            r == ModelName::Llama32_1B,
    {
        ModelName::Llama32_1B
    }
}

/// The model that a lowercase name or alias stands for.
pub open spec fn model_of(s: Seq<char>) -> Option<ModelName> {
    if s == "llama-3.2-1b-instruct"@ || s == "llama3.2-1b"@ || s == "llama32-1b"@ || s
        == "llama32_1b"@ {
        Some(ModelName::Llama32_1B)
    } else if s == "llama-3.2-3b-instruct"@ || s == "llama3.2-3b"@ || s == "llama32-3b"@ || s
        == "llama32_3b"@ {
        Some(ModelName::Llama32_3B)
    } else {
        None
    }
}

impl ModelName {
    /// Resolves a name that is already in lowercase.
    pub fn from_lowercase(s: &str) -> (r: Option<ModelName>)
        ensures
            r == model_of(s@),
    {
        if str_eq(s, "llama-3.2-1b-instruct") || str_eq(s, "llama3.2-1b") || str_eq(
            s,
            "llama32-1b",
        ) || str_eq(s, "llama32_1b") {
            Some(ModelName::Llama32_1B)
        } else if str_eq(s, "llama-3.2-3b-instruct") || str_eq(s, "llama3.2-3b") || str_eq(
            s,
            "llama32-3b",
        ) || str_eq(s, "llama32_3b") {
            Some(ModelName::Llama32_3B)
        } else {
            None
        }
    }

    /// Resolves a model name or alias, in any case.
    pub fn from_str(s: &str) -> (r: Option<ModelName>)
        ensures
            r == model_of(lower_of(s@)),
    {
        let lower = to_lowercase(s);
        ModelName::from_lowercase(lower.as_str())
    }

    /// The canonical names, one per model.
    pub fn available_models() -> (r: Vec<&'static str>)
        ensures
            r@.len() == 2,
            r@[0]@ == "llama-3.2-1b-instruct"@,
            r@[1]@ == "llama-3.2-3b-instruct"@,
    {
        let mut v: Vec<&'static str> = Vec::new();
        v.push("llama-3.2-1b-instruct");
        v.push("llama-3.2-3b-instruct");
        v
    }

    pub fn max_seq_len(&self) -> (r: usize)
        ensures
            r == 4096,
    {
        match self {
            ModelName::Llama32_1B => 4096,
            ModelName::Llama32_3B => 4096,
        }
    }

    pub fn description(&self) -> (r: &'static str)
        ensures
            r@ == match self {
                ModelName::Llama32_1B => "Llama 3.2 1B Instruct - 轻量级，适合资源受限环境 (~4GB)"@,
                ModelName::Llama32_3B => "Llama 3.2 3B Instruct - 平衡性能与资源 (~8GB)"@,
            },
    {
        match self {
            ModelName::Llama32_1B => "Llama 3.2 1B Instruct - 轻量级，适合资源受限环境 (~4GB)",
            ModelName::Llama32_3B => "Llama 3.2 3B Instruct - 平衡性能与资源 (~8GB)",
        }
    }

    /// The name shown to people.
    pub fn display_name(&self) -> (r: &'static str)
        ensures
            r@ == match self {
                ModelName::Llama32_1B => "Llama-3.2-1B-Instruct"@,
                ModelName::Llama32_3B => "Llama-3.2-3B-Instruct"@,
            },
    {
        match self {
            ModelName::Llama32_1B => "Llama-3.2-1B-Instruct",
            ModelName::Llama32_3B => "Llama-3.2-3B-Instruct",
        }
    }
}

/// One piece of a streamed generation.
#[derive(Debug)]
pub struct StreamChunk {
    pub token_text: String,
    pub generated_text: String,
    pub is_finished: bool,
    pub finish_reason: Option<String>,
}

/// A message in the form the chat template reads: the role is free text.
#[derive(Debug)]
pub struct ChatMessage {
    pub role: String,
    pub content: String,
}

impl Clone for ChatMessage {
    fn clone(&self) -> (r: Self)
        ensures
            r == *self,
    {
        ChatMessage { role: self.role.clone(), content: self.content.clone() }
    }
}

pub open spec fn role_header(role: Seq<char>) -> Seq<char> {
    if role == "system"@ {
        "<|start_header_id|>system<|end_header_id|>\n\n"@
    } else if role == "assistant"@ {
        "<|start_header_id|>assistant<|end_header_id|>\n\n"@
    } else {
        "<|start_header_id|>user<|end_header_id|>\n\n"@
    }
}

/// One message in the template; a role other than system or assistant is
/// rendered as user.
pub open spec fn render_message(m: ChatMessage) -> Seq<char> {
    role_header(m.role@) + m.content@ + "<|eot_id|>"@
}

pub open spec fn render_messages(s: Seq<ChatMessage>) -> Seq<char>
    decreases s.len(),
{
    if s.len() == 0 {
        Seq::empty()
    } else {
        render_messages(s.drop_last()) + render_message(s.last())
    }
}

pub open spec fn has_system(s: Seq<ChatMessage>) -> bool {
    exists|i: int| 0 <= i < s.len() && (#[trigger] s[i]).role@ == "system"@
}

/// The Llama 3 prompt: a default system message where none is given, every
/// message in order, then an open assistant header.
pub open spec fn llama3_prompt(s: Seq<ChatMessage>) -> Seq<char> {
    "<|begin_of_text|>"@ + (if has_system(s) {
        Seq::empty()
    } else {
        "<|start_header_id|>system<|end_header_id|>\n\n"@ + "You are a helpful assistant."@
            + "<|eot_id|>"@
    }) + render_messages(s) + "<|start_header_id|>assistant<|end_header_id|>\n\n"@
}

pub fn format_llama3_chat(messages: &[ChatMessage]) -> (r: String)
    ensures
        r@ == llama3_prompt(messages@),
{
    let mut prompt = String::new();
    prompt.append("<|begin_of_text|>");
    let mut has_sys = false;
    let mut i: usize = 0;
    while i < messages.len()
        invariant
            i <= messages@.len(),
            has_sys == exists|j: int| 0 <= j < i && (#[trigger] messages@[j]).role@ == "system"@,
        decreases messages@.len() - i,
    {
        if str_eq(messages[i].role.as_str(), "system") {
            has_sys = true;
        }
        i = i + 1;
    }
    if !has_sys {
        prompt.append("<|start_header_id|>system<|end_header_id|>\n\n");
        prompt.append("You are a helpful assistant.");
        prompt.append("<|eot_id|>");
    }
    let ghost head = prompt@;
    proof {
        assert(head == "<|begin_of_text|>"@ + (if has_system(messages@) {
            Seq::empty()
        } else {
            "<|start_header_id|>system<|end_header_id|>\n\n"@ + "You are a helpful assistant."@
                + "<|eot_id|>"@
        }));
    }
    let mut i: usize = 0;
    while i < messages.len()
        invariant
            i <= messages@.len(),
            prompt@ == head + render_messages(messages@.take(i as int)),
        decreases messages@.len() - i,
    {
        let m = &messages[i];
        if str_eq(m.role.as_str(), "system") {
            prompt.append("<|start_header_id|>system<|end_header_id|>\n\n");
        } else if str_eq(m.role.as_str(), "assistant") {
            prompt.append("<|start_header_id|>assistant<|end_header_id|>\n\n");
        } else {
            prompt.append("<|start_header_id|>user<|end_header_id|>\n\n");
        }
        prompt.append(m.content.as_str());
        prompt.append("<|eot_id|>");
        proof {
            assert(messages@.take(i + 1).drop_last() =~= messages@.take(i as int));
            assert(messages@.take(i + 1).last() == messages@[i as int]);
        }
        i = i + 1;
    }
    proof {
        assert(messages@.take(messages@.len() as int) =~= messages@);
    }
    prompt.append("<|start_header_id|>assistant<|end_header_id|>\n\n");
    prompt
}

/// A model as the health report lists it.
#[derive(Debug)]
pub struct ModelInfo {
    pub name: String,
    pub loaded: bool,
    pub description: String,
}

/// Holds the active model's name and, while one is loaded, the engine's
/// handle for it. At most one model is held at a time: a switch releases
/// the current handle before the new one is loaded.
pub struct ModelManager<M> {
    current_model: Option<M>,
    current_model_name: ModelName,
}

impl<M> ModelManager<M> {
    pub closed spec fn name_spec(&self) -> ModelName {
        self.current_model_name
    }

    pub closed spec fn handle_spec(&self) -> Option<M> {
        self.current_model
    }

    /// A dispatcher holding `model`, already loaded as the default model.
    pub fn new(model: M) -> (r: Self)
        ensures
            r.name_spec() == ModelName::Llama32_1B,
            r.handle_spec() == Some(model),
    {
        ModelManager { current_model: Some(model), current_model_name: ModelName::Llama32_1B }
    }

    pub fn current_model(&self) -> (r: ModelName)
        ensures
            r == self.name_spec(),
    {
        self.current_model_name
    }

    pub fn is_loaded(&self) -> (r: bool)
        ensures
            r == self.handle_spec().is_some(),
    {
        self.current_model.is_some()
    }

    /// The handle of the loaded model, if any.
    pub fn loaded_model(&self) -> (r: Option<&M>)
        ensures
            match r {
                Some(m) => self.handle_spec() == Some(*m),
                None => self.handle_spec().is_none(),
            },
    {
        match &self.current_model {
            Some(m) => Some(m),
            None => None,
        }
    }

    /// Starts a switch to `target`. Where `target` is already the current
    /// model nothing changes and false comes back; otherwise the current
    /// handle is released and true says that `target` must now be loaded.
    pub fn begin_switch(&mut self, target: ModelName) -> (r: bool)
        ensures
            r == (old(self).name_spec() != target),
            !r ==> final(self).name_spec() == old(self).name_spec() && final(self).handle_spec()
                == old(self).handle_spec(),
            r ==> final(self).name_spec() == old(self).name_spec() && final(self).handle_spec()
                is None,
    {
        if self.current_model_name == target {
            false
        } else {
            self.current_model = None;
            true
        }
    }

    /// Ends a switch to `target` with what loading it gave: the handle, or
    /// the engine's message. A failed load leaves no model loaded and the
    /// name unchanged.
    pub fn finish_switch(&mut self, target: ModelName, loaded: Result<M, String>) -> (r: Result<
        (),
        AppError,
    >)
        ensures
            match loaded {
                Ok(m) => r is Ok && final(self).name_spec() == target && final(self).handle_spec()
                    == Some(m),
                Err(msg) => r == Err::<(), AppError>(AppError::ModelNotLoaded(msg))
                    && final(self).name_spec() == old(self).name_spec()
                    && final(self).handle_spec() is None,
            },
    {
        match loaded {
            Ok(m) => {
                self.current_model = Some(m);
                self.current_model_name = target;
                Ok(())
            },
            Err(msg) => {
                self.current_model = None;
                Err(AppError::ModelNotLoaded(msg))
            },
        }
    }

    /// Resolves `requested` and starts a switch to it where it is not the
    /// current model: `Some(target)` asks for `target` to be loaded. An
    /// unknown name is an `InvalidRequest` and changes nothing.
    pub fn ensure_model(&mut self, requested: &str) -> (r: Result<Option<ModelName>, AppError>)
        ensures
            match model_of(lower_of(requested@)) {
                None => r is Err && r->Err_0 is InvalidRequest && final(self).name_spec() == old(
                    self,
                ).name_spec() && final(self).handle_spec() == old(self).handle_spec(),
                Some(t) => if t == old(self).name_spec() {
                    r == Ok::<Option<ModelName>, AppError>(None) && final(self).name_spec()
                        == old(self).name_spec() && final(self).handle_spec() == old(
                        self,
                    ).handle_spec()
                } else {
                    r == Ok::<Option<ModelName>, AppError>(Some(t)) && final(self).name_spec()
                        == old(self).name_spec() && final(self).handle_spec() is None
                },
            },
    {
        match ModelName::from_str(requested) {
            None => {
                let mut msg = owned("Unknown model: ");
                msg.append(requested);
                Err(AppError::InvalidRequest(msg))
            },
            Some(t) => {
                if self.begin_switch(t) {
                    Ok(Some(t))
                } else {
                    Ok(None)
                }
            },
        }
    }

    /// Every supported model, with whether it is the one loaded.
    pub fn list_models(&self) -> (r: Vec<ModelInfo>)
        ensures
            r@.len() == 2,
            r@[0].name@ == "llama-3.2-1b-instruct"@,
            r@[1].name@ == "llama-3.2-3b-instruct"@,
            r@[0].loaded == (self.name_spec() == ModelName::Llama32_1B
                && self.handle_spec().is_some()),
            r@[1].loaded == (self.name_spec() == ModelName::Llama32_3B
                && self.handle_spec().is_some()),
            r@[0].description@ == "Llama 3.2 1B Instruct - 轻量级，适合资源受限环境 (~4GB)"@,
            r@[1].description@ == "Llama 3.2 3B Instruct - 平衡性能与资源 (~8GB)"@,
    {
        let loaded = self.current_model.is_some();
        let mut v: Vec<ModelInfo> = Vec::new();
        let a = ModelName::Llama32_1B;
        let b = ModelName::Llama32_3B;
        v.push(
            ModelInfo {
                name: owned("llama-3.2-1b-instruct"),
                loaded: loaded && self.current_model_name == a,
                description: owned(a.description()),
            },
        );
        v.push(
            ModelInfo {
                name: owned("llama-3.2-3b-instruct"),
                loaded: loaded && self.current_model_name == b,
                description: owned(b.description()),
            },
        );
        v
    }

    pub fn format_chat_prompt(&self, messages: &[ChatMessage]) -> (r: String)
        ensures
            r@ == llama3_prompt(messages@),
    {
        format_llama3_chat(messages)
    }
}

/// The chunk sent when a generation is asked of a dispatcher that holds no
/// model: a single finished chunk whose reason is "error".
pub fn no_model_chunk() -> (r: StreamChunk)
    ensures
        r.token_text@ == "Error: No model loaded"@,
        r.generated_text@ == "Error: No model loaded"@,
        r.is_finished,
        r.finish_reason matches Some(f) && f@ == "error"@,
{
    StreamChunk {
        token_text: owned("Error: No model loaded"),
        generated_text: owned("Error: No model loaded"),
        is_finished: true,
        finish_reason: Some(owned("error")),
    }
}

/// The state of one streamed generation: the text so far, how many tokens
/// of the allowed number have been produced, and whether the finished chunk
/// has gone out. Exactly one finished chunk goes out per generation that
/// runs to its end.
pub struct StreamProgress {
    pub generated_text: String,
    pub num_tokens: usize,
    pub max_new_tokens: usize,
    pub finished: bool,
}

impl StreamProgress {
    pub fn new(max_new_tokens: usize) -> (r: Self)
        ensures
            r.generated_text@ == Seq::<char>::empty(),
            r.num_tokens == 0,
            r.max_new_tokens == max_new_tokens,
            !r.finished,
    {
        StreamProgress {
            generated_text: String::new(),
            num_tokens: 0,
            max_new_tokens,
            finished: false,
        }
    }

    /// Whether another token may still be produced.
    pub fn wants_more(&self) -> (r: bool)
        ensures
            r == (!self.finished && self.num_tokens < self.max_new_tokens),
    {
        !self.finished && self.num_tokens < self.max_new_tokens
    }

    /// The finished chunk sent when the model produces a stop token.
    pub fn on_stop(&mut self) -> (r: StreamChunk)
        requires
            !old(self).finished,
        ensures
            final(self).finished,
            final(self).generated_text@ == old(self).generated_text@,
            final(self).num_tokens == old(self).num_tokens,
            final(self).max_new_tokens == old(self).max_new_tokens,
            r.token_text@ == Seq::<char>::empty(),
            r.generated_text@ == old(self).generated_text@,
            r.is_finished,
            r.finish_reason matches Some(f) && f@ == "stop"@,
    {
        self.finished = true;
        StreamChunk {
            token_text: String::new(),
            generated_text: self.generated_text.clone(),
            is_finished: true,
            finish_reason: Some(owned("stop")),
        }
    }

    /// Records one produced token and gives the chunk that carries it; the
    /// chunk of the last allowed token is the finished one, by length.
    pub fn on_token(&mut self, token_text: String) -> (r: StreamChunk)
        requires
            !old(self).finished,
            old(self).num_tokens < old(self).max_new_tokens,
        ensures
            final(self).generated_text@ == old(self).generated_text@ + token_text@,
            final(self).num_tokens == old(self).num_tokens + 1,
            final(self).max_new_tokens == old(self).max_new_tokens,
            final(self).finished == r.is_finished,
            r.token_text == token_text,
            r.generated_text@ == final(self).generated_text@,
            r.is_finished == (final(self).num_tokens == final(self).max_new_tokens),
            r.is_finished ==> (r.finish_reason matches Some(f) && f@ == "length"@),
            !r.is_finished ==> r.finish_reason is None,
    {
        self.generated_text.append(token_text.as_str());
        self.num_tokens = self.num_tokens + 1;
        let is_last = self.num_tokens == self.max_new_tokens;
        self.finished = is_last;
        StreamChunk {
            token_text,
            generated_text: self.generated_text.clone(),
            is_finished: is_last,
            finish_reason: if is_last {
                Some(owned("length"))
            } else {
                None
            },
        }
    }

    /// The finished chunk still owed once the loop has ended: only where no
    /// finished chunk went out and the allowed tokens are used up (which is
    /// where none were allowed).
    pub fn closing_chunk(&mut self) -> (r: Option<StreamChunk>)
        ensures
            r is Some == (!old(self).finished && old(self).num_tokens
                == old(self).max_new_tokens),
            final(self).finished == (old(self).finished || r is Some),
            final(self).generated_text@ == old(self).generated_text@,
            final(self).num_tokens == old(self).num_tokens,
            final(self).max_new_tokens == old(self).max_new_tokens,
            r matches Some(c) ==> (c.token_text@ == Seq::<char>::empty() && c.generated_text@
                == old(self).generated_text@ && c.is_finished && (c.finish_reason matches Some(f)
                && f@ == "length"@)),
    {
        if !self.finished && self.num_tokens == self.max_new_tokens {
            self.finished = true;
            Some(
                StreamChunk {
                    token_text: String::new(),
                    generated_text: self.generated_text.clone(),
                    is_finished: true,
                    finish_reason: Some(owned("length")),
                },
            )
        } else {
            None
        }
    }
}

} // verus!
