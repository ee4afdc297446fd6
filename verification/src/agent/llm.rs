//! Talking to the language model: the chat messages sent, what is read
//! back from a reply, and when a failed call is retried.

use vstd::prelude::*;
use crate::agent::{date_stamp_ok, today_stamp, DateStamp};
use crate::text::{append_chars, chars_of, first_chars, first_chars_exec, res_view, string_of};

verus! {

// ---------------------------------------------------------------------
// The reply
// ---------------------------------------------------------------------

/// The `error` member of a reply, as far as it is read.
pub struct LlmError {
    /// `error.message`, when it is a string.
    pub message: Option<String>,
    /// `error.code`, when it is a string.
    pub code: Option<String>,
    /// `error.type`, when it is a string.
    pub kind: Option<String>,
}

/// One element of a `content` array: its `text` member and the element
/// itself, each when it is a string.
pub struct ContentPart {
    pub text: Option<String>,
    pub as_text: Option<String>,
}

/// What is read from an OpenAI-compatible chat completion reply.
pub struct LlmReply {
    /// The `error` member, when the reply has one.
    pub error: Option<LlmError>,
    /// `choices[0].message.content`, when it is a string.
    pub content: Option<String>,
    /// `choices[0].message.content`, when it is an array.
    pub content_parts: Option<Vec<ContentPart>>,
    /// `choices[0].message.reasoning_content`, when it is a string.
    pub reasoning_content: Option<String>,
    /// `choices[0].message.thinking`, when it is a string.
    pub thinking: Option<String>,
    /// `choices[0].message.text`, when it is a string.
    pub message_text: Option<String>,
    /// `choices[0].text`, when it is a string.
    pub choice_text: Option<String>,
    /// The top-level `content`, when it is a string.
    pub top_content: Option<String>,
    /// The whole reply, pretty-printed, for error messages.
    pub preview: String,
}

/// The text of an optional string.
pub open spec fn ov(o: Option<String>) -> Option<Seq<char>> {
    match o {
        Some(s) => Some(s@),
        None => None,
    }
}

/// The text of an element of a `content` array: its `text` member, else
/// the element itself.
pub open spec fn part_text(p: ContentPart) -> Option<Seq<char>> {
    match ov(p.text) {
        Some(t) => Some(t),
        None => ov(p.as_text),
    }
}

/// The texts of the elements of a `content` array that have one.
pub open spec fn part_texts(parts: Seq<ContentPart>) -> Seq<Seq<char>>
    decreases parts.len(),
{
    if parts.len() == 0 {
        seq![]
    } else {
        let rest = part_texts(parts.drop_last());
        match part_text(parts.last()) {
            Some(t) => rest.push(t),
            None => rest,
        }
    }
}

/// `items` joined by `sep`.
pub open spec fn join(items: Seq<Seq<char>>, sep: Seq<char>) -> Seq<char>
    decreases items.len(),
{
    if items.len() == 0 {
        seq![]
    } else if items.len() == 1 {
        items[0]
    } else {
        join(items.drop_last(), sep) + sep + items.last()
    }
}

/// A non-empty string.
pub open spec fn filled(o: Option<Seq<char>>) -> bool {
    o matches Some(s) && s.len() > 0
}

/// The error text for an `error` member: `LLM API 返回错误 [code]: message`,
/// where code falls back to the type, then to `unknown`, and the message
/// to `未知错误`.
pub open spec fn error_text(e: LlmError) -> Seq<char> {
    let msg = match ov(e.message) {
        Some(m) => m,
        None => "未知错误"@,
    };
    let code = match ov(e.code) {
        Some(c) => c,
        None => match ov(e.kind) {
            Some(k) => k,
            None => "unknown"@,
        },
    };
    "LLM API 返回错误 ["@ + code + "]: "@ + msg
}

/// What a reply yields: an error when it has an `error` member; otherwise
/// the first non-empty of the message content string, the joined texts of
/// a content array (when there is at least one), the reasoning content,
/// the thinking text, the message text, the choice text and the top-level
/// content; and an error with the first 500 characters of the reply when
/// all are empty.
pub open spec fn reply_content(r: LlmReply) -> Result<Seq<char>, Seq<char>> {
    if r.error is Some {
        Err(error_text(r.error->0))
    } else if filled(ov(r.content)) {
        Ok(ov(r.content)->0)
    } else if r.content_parts is Some && part_texts(r.content_parts->0@).len() > 0 {
        Ok(join(part_texts(r.content_parts->0@), "\n"@))
    } else if filled(ov(r.reasoning_content)) {
        Ok(ov(r.reasoning_content)->0)
    } else if filled(ov(r.thinking)) {
        Ok(ov(r.thinking)->0)
    } else if filled(ov(r.message_text)) {
        Ok(ov(r.message_text)->0)
    } else if filled(ov(r.choice_text)) {
        Ok(ov(r.choice_text)->0)
    } else if filled(ov(r.top_content)) {
        Ok(ov(r.top_content)->0)
    } else {
        Err("LLM返回内容为空。响应结构预览：\n"@ + first_chars(r.preview@, 500))
    }
}

fn copy_opt(o: &Option<String>) -> (r: Option<String>)
    ensures
        ov(r) == ov(*o),
{
    match o {
        Some(s) => Some(s.clone()),
        None => None,
    }
}

fn filled_exec(o: &Option<String>) -> (b: bool)
    ensures
        b == filled(ov(*o)),
{
    match o {
        Some(s) => !s.as_str().is_empty(),
        None => false,
    }
}

/// The joined texts of a content array.
fn join_parts(parts: &Vec<ContentPart>) -> (r: (Vec<char>, usize))
    ensures
        r.0@ == join(part_texts(parts@), "\n"@),
        r.1 == part_texts(parts@).len(),
{
    let mut out: Vec<char> = Vec::new();
    let mut count: usize = 0;
    let mut i: usize = 0;
    let nl = chars_of("\n");
    while i < parts.len()
        invariant
            i <= parts@.len(),
            nl@ == "\n"@,
            count == part_texts(parts@.take(i as int)).len(),
            count <= i,
            out@ == join(part_texts(parts@.take(i as int)), "\n"@),
        decreases parts@.len() - i,
    {
        assert(parts@.take(i + 1).drop_last() =~= parts@.take(i as int));
        let p = &parts[i];
        let t = match &p.text {
            Some(t) => Some(t),
            None => match &p.as_text {
                Some(t) => Some(t),
                None => None,
            },
        };
        let ghost items = part_texts(parts@.take(i as int));
        assert(parts@.take(i + 1).last() == parts@[i as int]);
        if let Some(t) = t {
            assert(part_text(parts@[i as int]) == Some(t@));
            assert(part_texts(parts@.take(i + 1)) == items.push(t@));
            assert(items.push(t@).drop_last() =~= items);
            if count > 0 {
                append_chars(&mut out, &nl);
            } else {
                assert(items.len() == 0);
                assert(out@ =~= Seq::<char>::empty());
            }
            append_chars(&mut out, &chars_of(t.as_str()));
            if count == 0 {
                assert(out@ =~= join(items.push(t@), "\n"@));
            }
            count = count + 1;
        } else {
            assert(part_text(parts@[i as int]) is None);
        }
        i = i + 1;
    }
    assert(parts@.take(parts@.len() as int) =~= parts@);
    (out, count)
}

/// What a reply yields (see `reply_content`).
pub fn extract_llm_content(data: &LlmReply) -> (r: Result<String, String>)
    ensures
        res_view(r) == reply_content(*data),
{
    if let Some(err) = &data.error {
        let msg = match &err.message {
            Some(m) => chars_of(m.as_str()),
            None => chars_of("未知错误"),
        };
        let code = match &err.code {
            Some(c) => chars_of(c.as_str()),
            None => match &err.kind {
                Some(k) => chars_of(k.as_str()),
                None => chars_of("unknown"),
            },
        };
        let mut text = chars_of("LLM API 返回错误 [");
        append_chars(&mut text, &code);
        append_chars(&mut text, &chars_of("]: "));
        append_chars(&mut text, &msg);
        return Err(string_of(&text));
    }
    if filled_exec(&data.content) {
        return Ok(copy_opt(&data.content).unwrap());
    }
    if let Some(parts) = &data.content_parts {
        let (joined, count) = join_parts(parts);
        if count > 0 {
            return Ok(string_of(&joined));
        }
    }
    if filled_exec(&data.reasoning_content) {
        return Ok(copy_opt(&data.reasoning_content).unwrap());
    }
    if filled_exec(&data.thinking) {
        return Ok(copy_opt(&data.thinking).unwrap());
    }
    if filled_exec(&data.message_text) {
        return Ok(copy_opt(&data.message_text).unwrap());
    }
    if filled_exec(&data.choice_text) {
        return Ok(copy_opt(&data.choice_text).unwrap());
    }
    if filled_exec(&data.top_content) {
        return Ok(copy_opt(&data.top_content).unwrap());
    }
    let mut text = chars_of("LLM返回内容为空。响应结构预览：\n");
    append_chars(&mut text, &first_chars_exec(&chars_of(data.preview.as_str()), 500));
    Err(string_of(&text))
}


// ---------------------------------------------------------------------
// The request
// ---------------------------------------------------------------------

/// One chat message.
pub struct ChatMessage {
    pub role: String,
    pub content: String,
}

/// The system message: the date, then the system prompt.
pub open spec fn dated_system(today: Seq<char>, system_prompt: Seq<char>) -> Seq<char> {
    "当前日期："@ + today + "。\n\n"@ + system_prompt
}

/// The messages sent for a prompt: the dated system message, then the
/// user message when the user prompt is not empty.
pub fn chat_messages(today: &str, system_prompt: &str, user_prompt: &str) -> (m: Vec<ChatMessage>)
    ensures
        m@.len() == (if user_prompt@.len() > 0 {
            2int
        } else {
            1int
        }),
        m@[0].role@ == "system"@,
        m@[0].content@ == dated_system(today@, system_prompt@),
        user_prompt@.len() > 0 ==> m@[1].role@ == "user"@ && m@[1].content@ == user_prompt@,
{
    let mut content = chars_of("当前日期：");
    append_chars(&mut content, &chars_of(today));
    append_chars(&mut content, &chars_of("。\n\n"));
    append_chars(&mut content, &chars_of(system_prompt));
    let mut messages = vec![ChatMessage { role: "system".to_string(), content: string_of(&content) }];
    if !user_prompt.is_empty() {
        messages.push(ChatMessage { role: "user".to_string(), content: user_prompt.to_string() });
    }
    messages
}

/// A date as the system message writes it: `%Y年%m月%d日`, the year, `年`,
/// the month, `月`, the day and `日`.
pub open spec fn date_label(d: DateStamp) -> Seq<char> {
    d.yyyy@ + "年"@ + d.mm@ + "月"@ + d.dd@ + "日"@
}

/// Writes a date as the system message does (see `date_label`).
fn date_label_exec(d: &DateStamp) -> (r: String)
    ensures
        r@ == date_label(*d),
{
    let mut t = chars_of(d.yyyy.as_str());
    append_chars(&mut t, &chars_of("年"));
    append_chars(&mut t, &chars_of(d.mm.as_str()));
    append_chars(&mut t, &chars_of("月"));
    append_chars(&mut t, &chars_of(d.dd.as_str()));
    append_chars(&mut t, &chars_of("日"));
    string_of(&t)
}

/// The messages for a prompt, dated today (see `chat_messages`).
pub fn dated_chat_messages(system_prompt: &str, user_prompt: &str) -> (m: Vec<ChatMessage>)
    ensures
        m@.len() == (if user_prompt@.len() > 0 {
            2int
        } else {
            1int
        }),
        m@[0].role@ == "system"@,
        exists|d: DateStamp|
            #![trigger date_label(d)]
            date_stamp_ok(d) && m@[0].content@ == dated_system(date_label(d), system_prompt@),
        user_prompt@.len() > 0 ==> m@[1].role@ == "user"@ && m@[1].content@ == user_prompt@,
{
    let d = today_stamp();
    let today = date_label_exec(&d);
    let m = chat_messages(today.as_str(), system_prompt, user_prompt);
    assert(m@[0].content@ == dated_system(date_label(d), system_prompt@));
    m
}

// ---------------------------------------------------------------------
// Retrying
// ---------------------------------------------------------------------

/// Retries after the first attempt.
pub const LLM_MAX_RETRIES: usize = 3;

/// Delay before the first retry, in milliseconds; it doubles for each later one.
pub const LLM_BASE_DELAY_MS: u64 = 1000;

/// 2 to the power `n`.
pub open spec fn pow2(n: nat) -> nat
    decreases n,
{
    if n == 0 {
        1
    } else {
        2 * pow2((n - 1) as nat)
    }
}

/// The delay after the failure of attempt `attempt` (counting from 0):
/// the base delay doubled `attempt` times, plus a jitter below 200 ms taken
/// from the clock reading `clock_millis`.
pub open spec fn retry_delay(attempt: nat, clock_millis: i64) -> int {
    LLM_BASE_DELAY_MS * pow2(attempt) + (clock_millis as u64) % 200
}

/// The delay after the failure of attempt `attempt`, with the jitter taken
/// from the clock reading `clock_millis`.
pub fn retry_delay_ms(attempt: usize, clock_millis: i64) -> (d: u64)
    requires
        attempt <= 54,
    ensures
        d == retry_delay(attempt as nat, clock_millis),
{
    let mut p: u64 = 1;
    let mut k: usize = 0;
    while k < attempt
        invariant
            k <= attempt <= 54,
            p == pow2(k as nat),
            p <= 0x40_0000_0000_0000u64,
        decreases attempt - k,
    {
        proof {
            lemma_pow2_bound((k + 1) as nat);
            assert(pow2((k + 1) as nat) == 2 * pow2(k as nat));
        }
        p = p * 2;
        k = k + 1;
    }
    proof {
        lemma_pow2_bound(attempt as nat);
    }
    LLM_BASE_DELAY_MS * p + (clock_millis as u64) % 200
}

proof fn lemma_pow2_bound(n: nat)
    requires
        n <= 54,
    ensures
        pow2(n) <= 0x40_0000_0000_0000,
    decreases 54 - n,
{
    if n < 54 {
        lemma_pow2_bound(n + 1);
        assert(pow2(n + 1) == 2 * pow2(n));
    } else {
        reveal_with_fuel(pow2, 55);
        assert(pow2(54) == 0x40_0000_0000_0000);
    }
}

/// Milliseconds since the Unix epoch (chrono `Utc::now().timestamp_millis()`).
/// Trusted; it reads the clock, so nothing is stated of it.
#[verifier::external_body]
fn clock_millis() -> i64 {
    chrono::Utc::now().timestamp_millis()
}

/// How one call attempt ended.
pub enum CallOutcome {
    /// A successful HTTP reply, with what was read from it.
    Reply(Result<String, String>),
    /// An HTTP error status, with the error text.
    HttpFailure { status: u16, message: String },
    /// No HTTP reply at all, with the error text.
    NetworkFailure { message: String },
}

/// What to do after a call attempt.
pub enum CallStep {
    /// Return this result to the caller.
    Finish(Result<String, String>),
    /// Wait this many milliseconds and try again.
    Retry { delay_ms: u64 },
}

/// Too many requests, or a server error: worth trying again.
pub open spec fn retryable_status(status: u16) -> bool {
    status == 429 || (500 <= status && status < 600)
}

/// Among the HTTP error statuses, a call is retried on 429 (too many
/// requests) and on every server error (500 to 599), and on no other
/// client error (400 to 499).
pub proof fn law_rate_limits_and_server_errors_are_retried(status: u16)
    ensures
        retryable_status(429),
        500 <= status < 600 ==> retryable_status(status),
        400 <= status < 500 && status != 429 ==> !retryable_status(status),
        status < 400 ==> !retryable_status(status),
        status >= 600 ==> !retryable_status(status),
{
}

/// Decides what follows attempt number `attempt` (counting from 0): a reply
/// is returned as it is; an HTTP error with a status that is not worth
/// retrying is returned at once; a retryable status or a network failure
/// is retried, after the growing delay, until `LLM_MAX_RETRIES` retries
/// are spent, and then its error is returned.
pub fn llm_call_step(attempt: usize, outcome: CallOutcome) -> (s: CallStep)
    requires
        attempt <= LLM_MAX_RETRIES,
    ensures
        match outcome {
            CallOutcome::Reply(r) => s == CallStep::Finish(r),
            CallOutcome::HttpFailure { status, message } => if retryable_status(status) && attempt
                < LLM_MAX_RETRIES {
                s matches CallStep::Retry { delay_ms } && LLM_BASE_DELAY_MS * pow2(attempt as nat)
                    <= delay_ms < LLM_BASE_DELAY_MS * pow2(attempt as nat) + 200
            } else {
                s == CallStep::Finish(Err(message))
            },
            CallOutcome::NetworkFailure { message } => if attempt < LLM_MAX_RETRIES {
                s matches CallStep::Retry { delay_ms } && LLM_BASE_DELAY_MS * pow2(attempt as nat)
                    <= delay_ms < LLM_BASE_DELAY_MS * pow2(attempt as nat) + 200
            } else {
                s == CallStep::Finish(Err(message))
            },
        },
{
    match outcome {
        CallOutcome::Reply(r) => CallStep::Finish(r),
        CallOutcome::HttpFailure { status, message } => {
            let retryable = status == 429 || (500 <= status && status < 600);
            if retryable && attempt < LLM_MAX_RETRIES {
                CallStep::Retry { delay_ms: retry_delay_ms(attempt, clock_millis()) }
            } else {
                CallStep::Finish(Err(message))
            }
        },
        CallOutcome::NetworkFailure { message } => {
            if attempt < LLM_MAX_RETRIES {
                CallStep::Retry { delay_ms: retry_delay_ms(attempt, clock_millis()) }
            } else {
                CallStep::Finish(Err(message))
            }
        },
    }
}

} // verus!
