//! The translation engine: maps chat-completion requests to the backend's
//! question/context shape, maps backend replies back into complete responses,
//! splits a complete reply into ordered streaming events, and classifies
//! failures into a closed taxonomy with sanitized client-facing output.

use vstd::prelude::*;

use crate::json::{data_text_of, extract_data_text, render_value, rendered_of};
use crate::openai::{
    ChatCompletionChunk, ChatCompletionRequest, ChatCompletionResponse, Choice, ChunkChoice, Delta,
    Message, Model, ModelsResponse, Usage,
};
use crate::strutil::{
    dec_str, has_prefix, split_words, str_eq, str_starts_with, usize_to_string, words_of,
};

verus! {

/// Relies on `std::time::SystemTime::now`, `duration_since(UNIX_EPOCH)` and
/// `Duration::as_secs` to read the wall clock as whole Unix seconds. The
/// documentation promises a non-negative duration whenever the clock is at or
/// after the epoch; on a clock before the epoch this panics, as the service
/// expects. Nothing is promised about which instant comes back.
#[verifier::external_body]
pub fn current_timestamp() -> (r: i64)
    ensures
        0 <= r,
{
    std::time::SystemTime::now().duration_since(std::time::UNIX_EPOCH).expect(
        "System time before UNIX epoch",
    ).as_secs() as i64
}

/// Relies on `uuid::Uuid::new_v4` and its `Display` implementation: a fresh
/// random UUID rendered in hyphenated form, 36 characters with dashes at
/// positions 8, 13, 18 and 23 and lowercase hexadecimal digits elsewhere.
/// Nothing is promised about which UUID comes back.
#[verifier::external_body]
fn uuid_simple() -> (r: String)
    ensures
        r@.len() == 36,
        forall|i: int| 0 <= i < 36 ==> ((r@[i] == '-') <==> (i == 8 || i == 13 || i == 18 || i
            == 23)),
        forall|i: int|
            0 <= i < 36 && r@[i] != '-' ==> {
                let u = r@[i] as u32;
                (0x30 <= u && u <= 0x39) || (0x61 <= u && u <= 0x66)
            },
{
    uuid::Uuid::new_v4().to_string()
}

/// A fresh response identifier: `chatcmpl-` followed by a hyphenated UUID.
pub fn response_id() -> (r: String)
    ensures
        r@.len() == 45,
        has_prefix(r@, "chatcmpl-"@),
{
    let uuid = uuid_simple();
    let mut id = String::from_str("chatcmpl-");
    id.append(uuid.as_str());
    proof {
        reveal_strlit("chatcmpl-");
        assert(id@.take(9) =~= "chatcmpl-"@);
    }
    id
}

/// Error taxonomy for the gateway.
#[derive(Debug, Clone)]
pub enum AppError {
    /// The downstream call failed or returned a non-success status.
    Backend(String),
    /// The downstream reply could not be mapped to the wire schema.
    Transform(String),
    /// The downstream call did not complete within the deadline.
    Timeout,
    /// An unexpected local fault.
    Internal(String),
}

/// Two errors of the same kind, whatever diagnostics they carry.
pub open spec fn same_kind(a: AppError, b: AppError) -> bool {
    ||| (a is Backend && b is Backend)
    ||| (a is Transform && b is Transform)
    ||| (a is Timeout && b is Timeout)
    ||| (a is Internal && b is Internal)
}

/// The one-line description of an error kind.
pub open spec fn summary_spec(e: AppError) -> Seq<char> {
    match e {
        AppError::Backend(_) => "Backend service unavailable"@,
        AppError::Transform(_) => "Failed to transform request/response"@,
        AppError::Timeout => "Request timeout"@,
        AppError::Internal(_) => "Internal server error"@,
    }
}

/// The fixed HTTP status a client sees for each error kind.
pub open spec fn client_status_spec(e: AppError) -> u16 {
    match e {
        AppError::Backend(_) => 502,
        AppError::Transform(_) => 500,
        AppError::Timeout => 504,
        AppError::Internal(_) => 500,
    }
}

/// The fixed generic message a client sees for each error kind.
pub open spec fn client_message_spec(e: AppError) -> Seq<char> {
    match e {
        AppError::Backend(_) => "Backend service unavailable"@,
        AppError::Transform(_) => "Failed to process response"@,
        AppError::Timeout => "Request timeout"@,
        AppError::Internal(_) => "Internal server error"@,
    }
}

/// The machine-readable type tag a client sees for each error kind.
pub open spec fn client_type_tag_spec(e: AppError) -> Seq<char> {
    match e {
        AppError::Backend(_) => "backend_error"@,
        AppError::Transform(_) => "transform_error"@,
        AppError::Timeout => "timeout_error"@,
        AppError::Internal(_) => "internal_error"@,
    }
}

/// The sanitized JSON error envelope a client sees:
/// `{"error":{"message":..., "type":...}}` built from the two fixed texts.
pub open spec fn client_body_spec(e: AppError) -> Seq<char> {
    "{\"error\":{\"message\":\""@ + client_message_spec(e) + "\",\"type\":\""@
        + client_type_tag_spec(e) + "\"}}"@
}

impl AppError {
    /// The one-line description of this error, as its display form.
    pub fn summary(&self) -> (r: String)
        ensures
            r@ == summary_spec(*self),
    {
        match self {
            AppError::Backend(_) => String::from_str("Backend service unavailable"),
            AppError::Transform(_) => String::from_str("Failed to transform request/response"),
            AppError::Timeout => String::from_str("Request timeout"),
            AppError::Internal(_) => String::from_str("Internal server error"),
        }
    }

    /// The HTTP status for the client-facing response.
    pub fn client_status(&self) -> (s: u16)
        ensures
            s == client_status_spec(*self),
    {
        match self {
            AppError::Backend(_) => 502,
            AppError::Transform(_) => 500,
            AppError::Timeout => 504,
            AppError::Internal(_) => 500,
        }
    }

    /// The generic client-facing message; never the internal diagnostic.
    pub fn client_message(&self) -> (r: String)
        ensures
            r@ == client_message_spec(*self),
    {
        match self {
            AppError::Backend(_) => String::from_str("Backend service unavailable"),
            AppError::Transform(_) => String::from_str("Failed to process response"),
            AppError::Timeout => String::from_str("Request timeout"),
            AppError::Internal(_) => String::from_str("Internal server error"),
        }
    }

    /// The machine-readable client-facing type tag.
    pub fn client_type_tag(&self) -> (r: String)
        ensures
            r@ == client_type_tag_spec(*self),
    {
        match self {
            AppError::Backend(_) => String::from_str("backend_error"),
            AppError::Transform(_) => String::from_str("transform_error"),
            AppError::Timeout => String::from_str("timeout_error"),
            AppError::Internal(_) => String::from_str("internal_error"),
        }
    }

    /// The serialized client-facing error envelope.
    pub fn client_body(&self) -> (r: String)
        ensures
            r@ == client_body_spec(*self),
    {
        let mut b = String::from_str("{\"error\":{\"message\":\"");
        b.append(self.client_message().as_str());
        b.append("\",\"type\":\"");
        b.append(self.client_type_tag().as_str());
        b.append("\"}}");
        proof {
            assert(b@ =~= client_body_spec(*self));
        }
        b
    }
}

/// Error mapping is a pure function of the error kind: the client-visible
/// status, message, type tag and body of two errors of the same kind are
/// identical, whatever internal diagnostics the errors carry — so no
/// diagnostic ever reaches the client.
pub proof fn lemma_client_response_ignores_diagnostic(a: AppError, b: AppError)
    requires
        same_kind(a, b),
    ensures
        client_status_spec(a) == client_status_spec(b),
        client_message_spec(a) == client_message_spec(b),
        client_type_tag_spec(a) == client_type_tag_spec(b),
        client_body_spec(a) == client_body_spec(b),
{
}

/// System information attached to every backend query.
#[derive(Debug, Clone)]
pub struct SystemInfo {
    /// Operating system name
    pub os: String,
    /// Operating system version string
    pub version: String,
    /// CPU architecture
    pub arch: String,
    /// Stable machine identifier
    pub id: String,
}

/// The context object of a backend query: empty placeholders reserved for
/// richer context, the host's system information, and the client version.
#[derive(Debug, Clone)]
pub struct BackendContext {
    /// Standard-input placeholder, always empty
    pub stdin: String,
    /// Attachment contents placeholder, always empty
    pub attachment_contents: String,
    /// Attachment MIME type placeholder, always empty
    pub attachment_mimetype: String,
    /// Terminal output placeholder, always empty
    pub terminal_output: String,
    /// Host system information
    pub systeminfo: SystemInfo,
    /// Version string of the calling client
    pub cla_version: String,
}

/// A query in the backend's shape: one question plus context.
#[derive(Debug, Clone)]
pub struct BackendQuery {
    /// The single question forwarded to the backend
    pub question: String,
    /// The attached context object
    pub context: BackendContext,
}

/// The question selected from a message sequence: the content of the last
/// message whose role is `user`, or empty if there is none.
pub open spec fn question_of(ms: Seq<Message>) -> Seq<char>
    decreases ms.len(),
{
    if ms.len() == 0 {
        Seq::empty()
    } else if ms.last().role@ == "user"@ {
        ms.last().content@
    } else {
        question_of(ms.drop_last())
    }
}

/// Maps a chat request to the backend's query shape: the question is the
/// content of the most recent `user` message (empty if none), the context
/// placeholders are empty, and the given system information and client
/// version are attached unchanged. Earlier conversational turns are
/// deliberately not forwarded.
pub fn transform_request(
    openai_req: &ChatCompletionRequest,
    systeminfo: SystemInfo,
    cla_version: String,
) -> (q: BackendQuery)
    ensures
        q.question@ == question_of(openai_req.messages@),
        q.context.stdin@ == Seq::<char>::empty(),
        q.context.attachment_contents@ == Seq::<char>::empty(),
        q.context.attachment_mimetype@ == Seq::<char>::empty(),
        q.context.terminal_output@ == Seq::<char>::empty(),
        q.context.systeminfo == systeminfo,
        q.context.cla_version == cla_version,
{
    let ghost ms = openai_req.messages@;
    proof {
        assert(ms.take(ms.len() as int) =~= ms);
    }
    let mut question = String::new();
    let mut i: usize = openai_req.messages.len();
    loop
        invariant_except_break
            question@ == Seq::<char>::empty(),
            question_of(ms) == question_of(ms.take(i as int)),
        invariant
            i <= ms.len(),
            ms == openai_req.messages@,
        ensures
            question@ == question_of(ms),
        decreases i,
    {
        if i == 0 {
            break ;
        }
        i = i - 1;
        proof {
            assert(ms.take(i as int + 1).drop_last() =~= ms.take(i as int));
            assert(ms.take(i as int + 1).last() == ms[i as int]);
        }
        if str_eq(openai_req.messages[i].role.as_str(), "user") {
            question = openai_req.messages[i].content.clone();
            break ;
        }
    }
    BackendQuery {
        question,
        context: BackendContext {
            stdin: String::new(),
            attachment_contents: String::new(),
            attachment_mimetype: String::new(),
            terminal_output: String::new(),
            systeminfo,
            cla_version,
        },
    }
}

/// The token-count estimate for a reply: its UTF-8 byte length divided by
/// four. A deliberate, documented approximation, not a tokenizer.
pub open spec fn token_estimate(text: Seq<char>) -> nat {
    vstd::utf8::encode_utf8(text).len() / 4
}

/// Maps a backend reply to a complete chat-completion response.
///
/// Succeeds exactly when the reply carries a `data.text` string. On success
/// the text becomes the single assistant choice with finish reason `stop`,
/// token usage is the estimate (prompt zero, completion the byte length over
/// four, total their sum), and the response gets a fresh identifier and the
/// current timestamp. A reply without `data.text` is a Transform failure
/// whose diagnostic carries the missing path and the full reply.
pub fn transform_response(backend_resp: &serde_json::Value, model: &str) -> (r: Result<
    ChatCompletionResponse,
    AppError,
>)
    ensures
        r is Ok <==> data_text_of(*backend_resp) is Some,
        r is Ok ==> {
            let resp = r->Ok_0;
            &&& resp.object@ == "chat.completion"@
            &&& resp.model@ == model@
            &&& resp.id@.len() == 45
            &&& has_prefix(resp.id@, "chatcmpl-"@)
            &&& resp.created >= 0
            &&& resp.choices@.len() == 1
            &&& resp.choices@[0].index == 0
            &&& resp.choices@[0].message.role@ == "assistant"@
            &&& resp.choices@[0].message.content@ == data_text_of(*backend_resp)->0
            &&& resp.choices@[0].message.name is None
            &&& resp.choices@[0].message.tool_calls is None
            &&& resp.choices@[0].finish_reason is Some
            &&& resp.choices@[0].finish_reason->0@ == "stop"@
            &&& resp.usage.prompt_tokens == 0
            &&& vstd::utf8::encode_utf8(data_text_of(*backend_resp)->0).len() <= usize::MAX
                ==> resp.usage.completion_tokens as nat == token_estimate(
                data_text_of(*backend_resp)->0,
            ) % 0x1_0000_0000
            &&& resp.usage.total_tokens == resp.usage.completion_tokens
        },
        r is Err ==> r->Err_0 is Transform,
        r is Err ==> r->Err_0->Transform_0@
            == "Could not extract response from backend. Expected 'data.text' field. Response: "@
            + rendered_of(*backend_resp),
{
    match extract_data_text(backend_resp) {
        None => {
            let mut diag = String::from_str(
                "Could not extract response from backend. Expected 'data.text' field. Response: ",
            );
            diag.append(render_value(backend_resp).as_str());
            Err(AppError::Transform(diag))
        },
        Some(generated_text) => {
            let byte_len = generated_text.as_str().len();
            let quarter = byte_len / 4;
            let completion_tokens: u32 = #[verifier::truncate] (quarter as u32);
            proof {
                assert((quarter as u32) as nat == (quarter as nat) % 0x1_0000_0000)
                    by (bit_vector);
            }
            Ok(
                ChatCompletionResponse {
                    id: response_id(),
                    object: String::from_str("chat.completion"),
                    created: current_timestamp(),
                    model: model.to_owned(),
                    choices: vec![
                        Choice {
                            index: 0,
                            message: Message {
                                role: String::from_str("assistant"),
                                content: generated_text,
                                name: None,
                                tool_calls: None,
                            },
                            finish_reason: Some(String::from_str("stop")),
                        },
                    ],
                    usage: Usage {
                        prompt_tokens: 0,
                        completion_tokens,
                        total_tokens: 0 + completion_tokens,
                    },
                },
            )
        },
    }
}

/// Extracts the reply text for streaming. Succeeds exactly when the reply
/// carries a `data.text` string; anything else is a Transform failure whose
/// diagnostic carries the missing path and the full reply.
pub fn extract_streaming_text(backend_response: &serde_json::Value) -> (r: Result<
    String,
    AppError,
>)
    ensures
        r is Ok <==> data_text_of(*backend_response) is Some,
        r is Ok ==> r->Ok_0@ == data_text_of(*backend_response)->0,
        r is Err ==> r->Err_0 is Transform,
        r is Err ==> r->Err_0->Transform_0@
            == "Could not extract text from backend response for streaming. Expected 'data.text'. Response: "@
            + rendered_of(*backend_response),
{
    match extract_data_text(backend_response) {
        Some(text) => Ok(text),
        None => {
            let mut diag = String::from_str(
                "Could not extract text from backend response for streaming. Expected 'data.text'. Response: ",
            );
            diag.append(render_value(backend_response).as_str());
            Err(AppError::Transform(diag))
        },
    }
}

/// Splits a complete reply into the ordered sequence of streaming events.
///
/// For W word tokens there are W+1 events (two when W is zero): event 0
/// carries only the assistant role, events 1 through W-1 carry as content the
/// word at that (one-based) position with a single trailing space, and the
/// final event carries only the finish reason `stop` — so the last word is
/// never emitted as content. All events share one fresh identifier, one
/// creation timestamp, the echoed model name, and a single choice at index 0;
/// no event carries both a role and a finish reason.
pub fn create_streaming_chunks(text: String, model: String) -> (chunks: Vec<ChatCompletionChunk>)
    ensures
        chunks@.len() == if words_of(text@).len() == 0 {
            2int
        } else {
            words_of(text@).len() + 1int
        },
        forall|k: int|
            0 <= k < chunks@.len() ==> {
                &&& (#[trigger] chunks@[k]).object@ == "chat.completion.chunk"@
                &&& chunks@[k].model@ == model@
                &&& chunks@[k].id@ == chunks@[0].id@
                &&& chunks@[k].created == chunks@[0].created
                &&& chunks@[k].choices@.len() == 1
                &&& chunks@[k].choices@[0].index == 0
                &&& chunks@[k].choices@[0].delta.tool_calls is None
                &&& !(chunks@[k].choices@[0].delta.role is Some
                    && chunks@[k].choices@[0].finish_reason is Some)
            },
        chunks@[0].id@.len() == 45,
        has_prefix(chunks@[0].id@, "chatcmpl-"@),
        chunks@[0].created >= 0,
        chunks@[0].choices@[0].delta.role is Some,
        chunks@[0].choices@[0].delta.role->0@ == "assistant"@,
        chunks@[0].choices@[0].delta.content is None,
        chunks@[0].choices@[0].finish_reason is None,
        forall|k: int|
            1 <= k < words_of(text@).len() ==> {
                &&& (#[trigger] chunks@[k]).choices@[0].delta.role is None
                &&& chunks@[k].choices@[0].delta.content is Some
                &&& chunks@[k].choices@[0].delta.content->0@ == words_of(text@)[k - 1]
                    + seq![' ']
                &&& chunks@[k].choices@[0].finish_reason is None
            },
        chunks@.last().choices@[0].delta.role is None,
        chunks@.last().choices@[0].delta.content is None,
        chunks@.last().choices@[0].finish_reason is Some,
        chunks@.last().choices@[0].finish_reason->0@ == "stop"@,
{
    let words = split_words(text.as_str());
    let chunk_id = response_id();
    let created = current_timestamp();
    let w = words.len();
    let mut chunks: Vec<ChatCompletionChunk> = Vec::new();
    chunks.push(
        ChatCompletionChunk {
            id: chunk_id.clone(),
            object: String::from_str("chat.completion.chunk"),
            created,
            model: model.clone(),
            choices: vec![
                ChunkChoice {
                    index: 0,
                    delta: Delta {
                        role: Some(String::from_str("assistant")),
                        content: None,
                        tool_calls: None,
                    },
                    finish_reason: None,
                },
            ],
        },
    );
    let mut k: usize = 1;
    while k < w
        invariant
            w == words@.len(),
            words.deep_view() == words_of(text@),
            1 <= k,
            k <= w || k == 1,
            chunks@.len() == k as int,
            chunk_id@.len() == 45,
            has_prefix(chunk_id@, "chatcmpl-"@),
            created >= 0,
            forall|j: int|
                0 <= j < k as int ==> {
                    &&& (#[trigger] chunks@[j]).object@ == "chat.completion.chunk"@
                    &&& chunks@[j].model@ == model@
                    &&& chunks@[j].id@ == chunk_id@
                    &&& chunks@[j].created == created
                    &&& chunks@[j].choices@.len() == 1
                    &&& chunks@[j].choices@[0].index == 0
                    &&& chunks@[j].choices@[0].delta.tool_calls is None
                },
            chunks@[0].choices@[0].delta.role is Some,
            chunks@[0].choices@[0].delta.role->0@ == "assistant"@,
            chunks@[0].choices@[0].delta.content is None,
            chunks@[0].choices@[0].finish_reason is None,
            forall|j: int|
                1 <= j < k as int ==> {
                    &&& (#[trigger] chunks@[j]).choices@[0].delta.role is None
                    &&& chunks@[j].choices@[0].delta.content is Some
                    &&& chunks@[j].choices@[0].delta.content->0@ == words_of(text@)[j - 1]
                        + seq![' ']
                    &&& chunks@[j].choices@[0].finish_reason is None
                },
        decreases w - k,
    {
        let mut content = words[k - 1].clone();
        content.append(" ");
        proof {
            reveal_strlit(" ");
            assert(words@[k as int - 1]@ == words.deep_view()[k as int - 1]);
            assert(content@ =~= words_of(text@)[k as int - 1] + seq![' ']);
        }
        chunks.push(
            ChatCompletionChunk {
                id: chunk_id.clone(),
                object: String::from_str("chat.completion.chunk"),
                created,
                model: model.clone(),
                choices: vec![
                    ChunkChoice {
                        index: 0,
                        delta: Delta { role: None, content: Some(content), tool_calls: None },
                        finish_reason: None,
                    },
                ],
            },
        );
        k = k + 1;
    }
    chunks.push(
        ChatCompletionChunk {
            id: chunk_id.clone(),
            object: String::from_str("chat.completion.chunk"),
            created,
            model: model.clone(),
            choices: vec![
                ChunkChoice {
                    index: 0,
                    delta: Delta { role: None, content: None, tool_calls: None },
                    finish_reason: Some(String::from_str("stop")),
                },
            ],
        },
    );
    chunks
}

/// The static single-entry model catalog; not backend-derived.
pub fn models_catalog() -> (r: ModelsResponse)
    ensures
        r.object@ == "list"@,
        r.data@.len() == 1,
        r.data@[0].id@ == "default-model"@,
        r.data@[0].object@ == "model"@,
        r.data@[0].created == 1234567890,
        r.data@[0].owned_by@ == "clad-redux"@,
{
    ModelsResponse {
        object: String::from_str("list"),
        data: vec![
            Model {
                id: String::from_str("default-model"),
                object: String::from_str("model"),
                created: 1234567890,
                owned_by: String::from_str("clad-redux"),
            },
        ],
    }
}

/// The health probe's payload. It is a total function built from constants
/// and the clock alone: producing it involves no backend interaction and it
/// cannot fail.
#[derive(Debug, Clone)]
pub struct HealthStatus {
    /// Fixed health indicator
    pub status: String,
    /// Name of this service
    pub service: String,
    /// Current Unix timestamp
    pub timestamp: i64,
}

/// Builds the health payload: status `healthy`, the service name, and the
/// current timestamp.
pub fn health_payload() -> (h: HealthStatus)
    ensures
        h.status@ == "healthy"@,
        h.service@ == "clad-proxy"@,
        h.timestamp >= 0,
{
    HealthStatus {
        status: String::from_str("healthy"),
        service: String::from_str("clad-proxy"),
        timestamp: current_timestamp(),
    }
}

/// Whether a request asks for a streamed response; absent means non-streaming.
pub fn stream_requested(request: &ChatCompletionRequest) -> (r: bool)
    ensures
        r == (request.stream is Some && request.stream->0),
{
    match request.stream {
        Some(b) => b,
        None => false,
    }
}

/// Whether an HTTP status from the backend counts as success (2xx).
pub fn backend_status_is_success(status: u16) -> (r: bool)
    ensures
        r == (200 <= status && status < 300),
{
    200 <= status && status < 300
}

/// The first line of a line sequence that starts with `VERSION=`.
pub open spec fn first_version_line(ls: Seq<Seq<char>>) -> Option<Seq<char>>
    decreases ls.len(),
{
    if ls.len() == 0 {
        None
    } else if has_prefix(ls[0], "VERSION="@) {
        Some(ls[0])
    } else {
        first_version_line(ls.drop_first())
    }
}

/// The version parsed from a release-descriptor file: the first `VERSION=`
/// line, with every leading `VERSION=` repetition stripped and surrounding
/// double quotes trimmed; `unknown` when no such line exists.
pub open spec fn os_version_of(content: Seq<char>) -> Seq<char> {
    match first_version_line(crate::strutil::lines_of(content)) {
        Some(l) => crate::strutil::trim_char(crate::strutil::strip_prefix_all(l, "VERSION="@), '"'),
        None => "unknown"@,
    }
}

/// Parses an OS version string out of release-descriptor file content,
/// exactly [`os_version_of`]. Degrades to `unknown` rather than failing.
pub fn parse_os_version(content: &str) -> (r: String)
    ensures
        r@ == os_version_of(content@),
{
    let lines = crate::strutil::split_str_lines(content);
    let ghost ls = crate::strutil::lines_of(content@);
    proof {
        assert(ls.skip(0) =~= ls);
    }
    let n = lines.len();
    let mut k: usize = 0;
    while k < n
        invariant
            ls == crate::strutil::lines_of(content@),
            lines.deep_view() == ls,
            n == lines@.len(),
            k <= n,
            first_version_line(ls) == first_version_line(ls.skip(k as int)),
        decreases n - k,
    {
        proof {
            assert(lines@[k as int]@ == ls[k as int]);
        }
        if str_starts_with(lines[k].as_str(), "VERSION=") {
            proof {
                reveal_strlit("VERSION=");
                assert(ls.skip(k as int)[0] == ls[k as int]);
                assert(ls.skip(k as int).len() > 0);
                assert(has_prefix(ls.skip(k as int)[0], "VERSION="@));
                assert(first_version_line(ls.skip(k as int)) == Some(ls[k as int]));
            }
            let stripped = crate::strutil::str_strip_prefix_all(lines[k].as_str(), "VERSION=");
            let out = crate::strutil::str_trim_char(stripped.as_str(), '"');
            proof {
                assert(first_version_line(ls) == Some(ls[k as int]));
                assert(out@ == os_version_of(content@));
            }
            return out;
        }
        proof {
            assert(ls.skip(k as int).drop_first() =~= ls.skip(k as int + 1));
            assert(ls.skip(k as int)[0] == ls[k as int]);
        }
        k = k + 1;
    }
    String::from_str("unknown")
}

/// The Backend error raised for a non-success backend status, carrying the
/// status in its diagnostic.
pub fn backend_status_error(status: u16) -> (e: AppError)
    ensures
        e is Backend,
        e->Backend_0@ == "Backend returned status "@ + dec_str(status as int),
{
    let mut m = String::from_str("Backend returned status ");
    m.append(usize_to_string(status as usize).as_str());
    AppError::Backend(m)
}

} // verus!
