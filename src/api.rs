use vstd::prelude::*;

use crate::text::{concat3, is_white, is_white_char, chars_of};

verus! {

/// One message of a chat conversation.
pub struct ChatMessage {
    pub role: String,
    pub content: String,
}

/// A non-streaming chat completion.
pub struct ChatCompletionResponse {
    pub id: String,
    pub object: String,
    pub created: i64,
    pub model: String,
    pub choices: Vec<ChatChoice>,
    pub usage: Usage,
}

pub struct ChatChoice {
    pub index: usize,
    pub message: ChatMessage,
    pub finish_reason: String,
}

/// Token accounting of a completion, counted in white-space separated words.
pub struct Usage {
    pub prompt_tokens: usize,
    pub completion_tokens: usize,
    pub total_tokens: usize,
}

/// One chunk of a streamed chat completion.
pub struct ChatCompletionChunk {
    pub id: String,
    pub object: String,
    pub created: i64,
    pub model: String,
    pub choices: Vec<ChatChoiceDelta>,
}

pub struct ChatChoiceDelta {
    pub index: usize,
    pub delta: ChatMessageDelta,
    pub finish_reason: Option<String>,
}

pub struct ChatMessageDelta {
    pub role: Option<String>,
    pub content: Option<String>,
}

/// What a model listing says of a model.
pub struct ModelDetails {
    pub format: String,
    pub family: String,
    pub parameter_size: String,
    pub quantization_level: String,
}

pub struct PullRequest {
    pub name: String,
    pub insecure: bool,
}

/// One progress report of a pull.
pub struct PullResponse {
    pub status: String,
    pub digest: Option<String>,
    pub total: Option<u64>,
    pub completed: Option<u64>,
}

pub struct ShowRequest {
    pub name: String,
}

pub struct ShowResponse {
    pub modelfile: String,
    pub parameters: String,
    pub template: String,
    pub details: ModelDetails,
}

pub struct DeleteRequest {
    pub name: String,
}

pub struct ErrorResponse {
    pub error: String,
}

pub open spec fn message_line(m: ChatMessage) -> Seq<char> {
    m.role@ + ": "@ + m.content@
}

/// The prompt made of a conversation: one `role: content` line per message.
pub open spec fn prompt_of(ms: Seq<ChatMessage>) -> Seq<char>
    decreases ms.len(),
{
    if ms.len() == 0 {
        Seq::empty()
    } else if ms.len() == 1 {
        message_line(ms[0])
    } else {
        prompt_of(ms.drop_last()) + "\n"@ + message_line(ms.last())
    }
}

/// The number of white-space separated words of `s`.
pub open spec fn word_count_of(s: Seq<char>) -> nat
    decreases s.len(),
{
    if s.len() == 0 {
        0
    } else {
        let prev = word_count_of(s.drop_last());
        if !is_white(s.last()) && (s.len() == 1 || is_white(s[s.len() - 2])) {
            prev + 1
        } else {
            prev
        }
    }
}

/// Joins the messages into one prompt, one `role: content` line each.
pub fn build_prompt(messages: &Vec<ChatMessage>) -> (r: String)
    ensures
        r@ == prompt_of(messages@),
{
    let mut out = String::new();
    let mut i: usize = 0;
    while i < messages.len()
        invariant
            i <= messages.len(),
            out@ == prompt_of(messages@.take(i as int)),
        decreases messages.len() - i,
    {
        let line = concat3(messages[i].role.as_str(), ": ", messages[i].content.as_str());
        if i > 0 {
            out.append("\n");
        }
        out.append(line.as_str());
        assert(messages@.take(i + 1).drop_last() =~= messages@.take(i as int));
        i = i + 1;
    }
    assert(messages@.take(i as int) =~= messages@);
    out
}

/// The number of white-space separated words of `s`, as
/// `split_whitespace().count()` gives it.
pub fn word_count(s: &str) -> (r: usize)
    ensures
        r == word_count_of(s@),
{
    let chars = chars_of(s);
    let mut count: usize = 0;
    let mut i: usize = 0;
    while i < chars.len()
        invariant
            chars@ == s@,
            i <= chars.len(),
            count == word_count_of(s@.take(i as int)),
            count <= i,
        decreases chars.len() - i,
    {
        let starts = !is_white_char(chars[i]) && (i == 0 || is_white_char(chars[i - 1]));
        assert(s@.take(i + 1).drop_last() =~= s@.take(i as int));
        if starts {
            count = count + 1;
        }
        i = i + 1;
    }
    assert(s@.take(i as int) =~= s@);
    count
}

impl Usage {
    pub fn new(prompt_tokens: usize, completion_tokens: usize) -> (r: Usage)
        requires
            prompt_tokens + completion_tokens <= usize::MAX,
        ensures
            r.prompt_tokens == prompt_tokens,
            r.completion_tokens == completion_tokens,
            r.total_tokens == prompt_tokens + completion_tokens,
    {
        Usage { prompt_tokens, completion_tokens, total_tokens: prompt_tokens + completion_tokens }
    }

    /// Usage of a prompt and its completion, in words; `None` when the total
    /// does not fit in a `usize`.
    pub fn of_texts(prompt: &str, completion_tokens: usize) -> (r: Option<Usage>)
        ensures
            r matches Some(u) ==> u.prompt_tokens == word_count_of(prompt@) && u.completion_tokens
                == completion_tokens && u.total_tokens == word_count_of(prompt@) + completion_tokens,
            r is None <==> word_count_of(prompt@) + completion_tokens > usize::MAX,
    {
        let p = word_count(prompt);
        if p > usize::MAX - completion_tokens {
            return None;
        }
        Some(Usage::new(p, completion_tokens))
    }
}

/// A non-streaming chat completion: one assistant message that finished on `stop`.
pub fn chat_completion(
    id: String,
    created: i64,
    model: String,
    content: String,
    usage: Usage,
) -> (r: ChatCompletionResponse)
    ensures
        r.id == id,
        r.object@ == "chat.completion"@,
        r.created == created,
        r.model == model,
        r.choices@.len() == 1,
        r.choices@[0].index == 0,
        r.choices@[0].message.role@ == "assistant"@,
        r.choices@[0].message.content == content,
        r.choices@[0].finish_reason@ == "stop"@,
        r.usage == usage,
{
    let mut choices: Vec<ChatChoice> = Vec::new();
    choices.push(
        ChatChoice {
            index: 0,
            message: ChatMessage { role: String::from_str("assistant"), content },
            finish_reason: String::from_str("stop"),
        },
    );
    ChatCompletionResponse {
        id,
        object: String::from_str("chat.completion"),
        created,
        model,
        choices,
        usage,
    }
}

/// One streamed chunk: a piece of content, or the closing chunk with its
/// finish reason.
pub fn completion_chunk(
    id: String,
    created: i64,
    model: String,
    content: Option<String>,
    finish_reason: Option<String>,
) -> (r: ChatCompletionChunk)
    ensures
        r.id == id,
        r.object@ == "chat.completion.chunk"@,
        r.created == created,
        r.model == model,
        r.choices@.len() == 1,
        r.choices@[0].index == 0,
        r.choices@[0].delta.role is None,
        r.choices@[0].delta.content == content,
        r.choices@[0].finish_reason == finish_reason,
{
    let mut choices: Vec<ChatChoiceDelta> = Vec::new();
    choices.push(
        ChatChoiceDelta { index: 0, delta: ChatMessageDelta { role: None, content }, finish_reason },
    );
    ChatCompletionChunk {
        id,
        object: String::from_str("chat.completion.chunk"),
        created,
        model,
        choices,
    }
}

impl ShowResponse {
    /// What `show` reports of a model stored at `path`.
    pub fn for_model(path: &str, details: ModelDetails) -> (r: ShowResponse)
        ensures
            r.modelfile@ == "FROM "@ + path@ + "\nPARAMETER temperature 0.8"@,
            r.parameters@ == "temperature 0.8\ntop_p 0.95"@,
            r.template@ == "{{ .System }}\n{{ .Prompt }}"@,
            r.details == details,
    {
        ShowResponse {
            modelfile: concat3("FROM ", path, "\nPARAMETER temperature 0.8"),
            parameters: String::from_str("temperature 0.8\ntop_p 0.95"),
            template: String::from_str("{{ .System }}\n{{ .Prompt }}"),
            details,
        }
    }
}

impl ErrorResponse {
    pub fn new(error: String) -> (r: ErrorResponse)
        ensures
            r.error == error,
    {
        ErrorResponse { error }
    }
}

} // verus!
