//! Message types of the model API: requests, responses, content blocks,
//! streaming events, token usage and extended-thinking settings.
use vstd::prelude::*;
use vstd::string::StringExecFns;
use crate::text::{
    chars_of, eq_ignore_case, lemma_ignore_case_one_keyword, lowercase, matches_ignore_case, push_str,
    to_lowercase,
};

verus! {

/// Extended-thinking setting of a request.
#[derive(Debug, Clone, Copy, PartialEq, Eq, Structural)]
pub enum ThinkingConfig {
    Enabled { budget_tokens: u32 },
    Disabled,
}

/// How much thinking a request may spend.
#[derive(Debug, Clone, Copy, PartialEq, Eq, Structural)]
pub enum EffortLevel {
    Low,
    Medium,
    High,
    Max,
}

/// The effort level an effort name stands for, compared without regard to
/// case: `low`, `medium` or `med`, `high`, `max`.
pub open spec fn effort_of(s: Seq<char>) -> Option<EffortLevel> {
    if eq_ignore_case(s, "low"@) {
        Some(EffortLevel::Low)
    } else if eq_ignore_case(s, "medium"@) || eq_ignore_case(s, "med"@) {
        Some(EffortLevel::Medium)
    } else if eq_ignore_case(s, "high"@) {
        Some(EffortLevel::High)
    } else if eq_ignore_case(s, "max"@) {
        Some(EffortLevel::Max)
    } else {
        None
    }
}

/// The message for an effort name that is not recognized.
pub open spec fn msg_invalid_effort(s: Seq<char>) -> Seq<char> {
    "invalid effort level: "@ + lowercase(s) + " (expected low/medium/high/max)"@
}

/// The thinking budget of an effort level.
pub open spec fn budget_of(level: EffortLevel) -> u32 {
    match level {
        EffortLevel::Low => 1024,
        EffortLevel::Medium => 4096,
        EffortLevel::High => 16384,
        EffortLevel::Max => 32768,
    }
}

impl EffortLevel {
    /// Parses an effort level string (case-insensitive).  Accepts "low",
    /// "medium"/"med", "high", "max".
    pub fn parse(s: &str) -> (r: Result<EffortLevel, String>)
        ensures
            match effort_of(s@) {
                Some(level) => r == Ok::<EffortLevel, String>(level),
                None => r is Err && r->Err_0@ == msg_invalid_effort(s@),
            },
    {
        let v = chars_of(s);
        if matches_ignore_case(v.as_slice(), "low") {
            Ok(EffortLevel::Low)
        } else if matches_ignore_case(v.as_slice(), "medium") || matches_ignore_case(
            v.as_slice(),
            "med",
        ) {
            Ok(EffortLevel::Medium)
        } else if matches_ignore_case(v.as_slice(), "high") {
            Ok(EffortLevel::High)
        } else if matches_ignore_case(v.as_slice(), "max") {
            Ok(EffortLevel::Max)
        } else {
            let mut m = String::new();
            push_str(&mut m, "invalid effort level: ");
            push_str(&mut m, to_lowercase(s).as_str());
            push_str(&mut m, " (expected low/medium/high/max)");
            Err(m)
        }
    }

    /// Returns the thinking budget token count for this effort level.
    pub fn budget_tokens(self) -> (n: u32)
        ensures
            n == budget_of(self),
    {
        match self {
            EffortLevel::Low => 1024,
            EffortLevel::Medium => 4096,
            EffortLevel::High => 16384,
            EffortLevel::Max => 32768,
        }
    }

    /// Converts to a `ThinkingConfig::Enabled` with the appropriate budget.
    pub fn to_thinking_config(self) -> (c: ThinkingConfig)
        ensures
            c == (ThinkingConfig::Enabled { budget_tokens: budget_of(self) }),
    {
        ThinkingConfig::Enabled { budget_tokens: self.budget_tokens() }
    }
}

/// A request to the messages endpoint.
#[derive(Debug, Clone, PartialEq)]
pub struct MessageRequest {
    pub model: String,
    pub max_tokens: u32,
    pub messages: Vec<InputMessage>,
    pub system: Option<String>,
    pub tools: Option<Vec<ToolDefinition>>,
    pub tool_choice: Option<ToolChoice>,
    pub stream: bool,
    pub thinking: Option<ThinkingConfig>,
}

impl MessageRequest {
    /// The same request, asking for a streamed response.
    pub fn with_streaming(self) -> (r: MessageRequest)
        ensures
            r == (MessageRequest { stream: true, ..self }),
    {
        let mut s = self;
        s.stream = true;
        s
    }
}

/// A message of the conversation sent with a request.
#[derive(Debug, Clone, PartialEq)]
pub struct InputMessage {
    pub role: String,
    pub content: Vec<InputContentBlock>,
}

impl InputMessage {
    /// A user message holding one text block.
    pub fn user_text(text: &str) -> (m: InputMessage)
        ensures
            m.role@ == "user"@,
            m.content.len() == 1,
            (m.content@[0] matches InputContentBlock::Text { text: t } && t@ == text@),
    {
        let mut content: Vec<InputContentBlock> = Vec::new();
        content.push(InputContentBlock::Text { text: String::from_str(text) });
        InputMessage { role: String::from_str("user"), content }
    }

    /// A user message holding one tool result with one text block.
    pub fn user_tool_result(tool_use_id: &str, content: &str, is_error: bool) -> (m: InputMessage)
        ensures
            m.role@ == "user"@,
            m.content.len() == 1,
            (m.content@[0] matches InputContentBlock::ToolResult {
                tool_use_id: id,
                content: blocks,
                is_error: e,
            } && id@ == tool_use_id@ && e == is_error && blocks.len() == 1
                && (blocks@[0] matches ToolResultContentBlock::Text { text: t } && t@ == content@)),
    {
        let mut blocks: Vec<ToolResultContentBlock> = Vec::new();
        blocks.push(ToolResultContentBlock::Text { text: String::from_str(content) });
        let mut c: Vec<InputContentBlock> = Vec::new();
        c.push(
            InputContentBlock::ToolResult {
                tool_use_id: String::from_str(tool_use_id),
                content: blocks,
                is_error,
            },
        );
        InputMessage { role: String::from_str("user"), content: c }
    }
}

/// A content block of an input message.
#[derive(Debug, Clone, PartialEq)]
pub enum InputContentBlock {
    Text { text: String },
    ToolUse { id: String, name: String, input: serde_json::Value },
    ToolResult { tool_use_id: String, content: Vec<ToolResultContentBlock>, is_error: bool },
}

/// A content block of a tool result.
#[derive(Debug, Clone, PartialEq)]
pub enum ToolResultContentBlock {
    Text { text: String },
    Json { value: serde_json::Value },
    Image { source: ImageSource },
}

/// Base64-encoded image source for multimodal content blocks.
#[derive(Debug, Clone, PartialEq, Eq)]
pub struct ImageSource {
    /// Source type, always `"base64"` for inline images.
    pub kind: String,
    /// MIME type (e.g. `"image/png"`, `"image/jpeg"`).
    pub media_type: String,
    /// Base64-encoded image bytes.
    pub data: String,
}

/// A tool the model may call.
#[derive(Debug, Clone, PartialEq, Eq)]
pub struct ToolDefinition {
    pub name: String,
    pub description: Option<String>,
    pub input_schema: serde_json::Value,
}

/// How the model chooses tools.
#[derive(Debug, Clone, PartialEq, Eq)]
pub enum ToolChoice {
    Auto,
    Any,
    Tool { name: String },
}

/// A complete response of the messages endpoint.
#[derive(Debug, Clone, PartialEq)]
pub struct MessageResponse {
    pub id: String,
    pub kind: String,
    pub role: String,
    pub content: Vec<OutputContentBlock>,
    pub model: String,
    pub stop_reason: Option<String>,
    pub stop_sequence: Option<String>,
    pub usage: Usage,
    pub request_id: Option<String>,
}

impl MessageResponse {
    /// All tokens the response accounts for.
    pub fn total_tokens(&self) -> (n: u32)
        requires
            usage_sum(self.usage) <= u32::MAX,
        ensures
            n == usage_sum(self.usage),
    {
        self.usage.total_tokens()
    }
}

/// A content block of a response.
#[derive(Debug, Clone, PartialEq)]
pub enum OutputContentBlock {
    Text { text: String },
    ToolUse { id: String, name: String, input: serde_json::Value },
    Thinking { thinking: String, signature: Option<String> },
    RedactedThinking { data: serde_json::Value },
}

/// Token counts of a response.
#[derive(Debug, Clone, Copy, PartialEq, Eq, Structural)]
pub struct Usage {
    pub input_tokens: u32,
    pub cache_creation_input_tokens: u32,
    pub cache_read_input_tokens: u32,
    pub output_tokens: u32,
}

impl Default for Usage {
    fn default() -> (u: Usage)
        ensures
            u == (Usage {
                input_tokens: 0,
                cache_creation_input_tokens: 0,
                cache_read_input_tokens: 0,
                output_tokens: 0,
            }),
    {
        Usage { input_tokens: 0, cache_creation_input_tokens: 0, cache_read_input_tokens: 0, output_tokens: 0 }
    }
}

/// Input, output and both kinds of cache tokens, added up.
pub open spec fn usage_sum(u: Usage) -> int {
    u.input_tokens + u.output_tokens + u.cache_creation_input_tokens + u.cache_read_input_tokens
}

/// Token counts in the form the cost tracker keeps them.
#[derive(Debug, Clone, Copy, PartialEq, Eq, Structural)]
pub struct TokenUsage {
    pub input_tokens: u32,
    pub output_tokens: u32,
    pub cache_creation_input_tokens: u32,
    pub cache_read_input_tokens: u32,
}

/// Input, output and both kinds of cache tokens of a `TokenUsage`, added up.
pub open spec fn token_sum(t: TokenUsage) -> int {
    t.input_tokens + t.output_tokens + t.cache_creation_input_tokens + t.cache_read_input_tokens
}

/// The counts of a response's usage as a `TokenUsage`.
pub open spec fn usage_token_counts(u: Usage) -> TokenUsage {
    TokenUsage {
        input_tokens: u.input_tokens,
        output_tokens: u.output_tokens,
        cache_creation_input_tokens: u.cache_creation_input_tokens,
        cache_read_input_tokens: u.cache_read_input_tokens,
    }
}

impl TokenUsage {
    /// All tokens counted, cache tokens included.
    pub fn total_tokens(&self) -> (n: u32)
        requires
            token_sum(*self) <= u32::MAX,
        ensures
            n == token_sum(*self),
    {
        self.input_tokens + self.output_tokens + self.cache_creation_input_tokens
            + self.cache_read_input_tokens
    }
}

impl Usage {
    /// All tokens of the response, cache tokens included.
    pub fn total_tokens(&self) -> (n: u32)
        requires
            usage_sum(*self) <= u32::MAX,
        ensures
            n == usage_sum(*self),
    {
        self.input_tokens + self.output_tokens + self.cache_creation_input_tokens
            + self.cache_read_input_tokens
    }

    /// The same counts as a `TokenUsage`.
    pub fn token_usage(&self) -> (t: TokenUsage)
        ensures
            t == usage_token_counts(*self),
    {
        TokenUsage {
            input_tokens: self.input_tokens,
            output_tokens: self.output_tokens,
            cache_creation_input_tokens: self.cache_creation_input_tokens,
            cache_read_input_tokens: self.cache_read_input_tokens,
        }
    }
}

/// The first event of a streamed response.
#[derive(Debug, Clone, PartialEq)]
pub struct MessageStartEvent {
    pub message: MessageResponse,
}

/// A change to the message as a whole during streaming.
#[derive(Debug, Clone, PartialEq)]
pub struct MessageDeltaEvent {
    pub delta: MessageDelta,
    pub usage: Usage,
}

/// The stop reason and sequence of a streamed message.
#[derive(Debug, Clone, PartialEq, Eq)]
pub struct MessageDelta {
    pub stop_reason: Option<String>,
    pub stop_sequence: Option<String>,
}

/// The start of a content block during streaming.
#[derive(Debug, Clone, PartialEq)]
pub struct ContentBlockStartEvent {
    pub index: u32,
    pub content_block: OutputContentBlock,
}

/// A piece of a content block during streaming.
#[derive(Debug, Clone, PartialEq)]
pub struct ContentBlockDeltaEvent {
    pub index: u32,
    pub delta: ContentBlockDelta,
}

/// The kinds of content block pieces.
#[derive(Debug, Clone, PartialEq, Eq)]
pub enum ContentBlockDelta {
    TextDelta { text: String },
    InputJsonDelta { partial_json: String },
    ThinkingDelta { thinking: String },
    SignatureDelta { signature: String },
}

/// The end of a content block during streaming.
#[derive(Debug, Clone, PartialEq, Eq)]
pub struct ContentBlockStopEvent {
    pub index: u32,
}

/// The end of a streamed message.
#[derive(Debug, Clone, PartialEq, Eq)]
pub struct MessageStopEvent {}

/// An event of a streamed response.
#[derive(Debug, Clone, PartialEq)]
pub enum StreamEvent {
    MessageStart(MessageStartEvent),
    MessageDelta(MessageDeltaEvent),
    ContentBlockStart(ContentBlockStartEvent),
    ContentBlockDelta(ContentBlockDeltaEvent),
    ContentBlockStop(ContentBlockStopEvent),
    MessageStop(MessageStopEvent),
}

/// The lower-case name of each effort level.
pub open spec fn effort_keyword(level: EffortLevel) -> Seq<char> {
    match level {
        EffortLevel::Low => "low"@,
        EffortLevel::Medium => "medium"@,
        EffortLevel::High => "high"@,
        EffortLevel::Max => "max"@,
    }
}

/// Every effort level is parsed back from its name, and a higher level has
/// a larger thinking budget.
pub proof fn law_effort_levels(level: EffortLevel)
    ensures
        effort_of(effort_keyword(level)) == Some(level),
        budget_of(EffortLevel::Low) < budget_of(EffortLevel::Medium) < budget_of(EffortLevel::High)
            < budget_of(EffortLevel::Max),
{
    reveal_strlit("low");
    reveal_strlit("medium");
    reveal_strlit("med");
    reveal_strlit("high");
    reveal_strlit("max");
    assert(crate::text::fold_char("medium"@[0]) != "low"@[0]);
    assert(crate::text::fold_char("high"@[0]) != "low"@[0]);
    assert(crate::text::fold_char("max"@[0]) != "low"@[0]);
    assert(crate::text::fold_char("max"@[1]) != "med"@[1]);
}

/// The total of a response's usage is the total of its counts as the cost
/// tracker keeps them.
pub proof fn law_usage_totals_agree(u: Usage)
    ensures
        usage_sum(u) == token_sum(usage_token_counts(u)),
{
}

/// An effort name selects its level whatever the case of its letters
/// (`Medium`, `MEDIUM`, `medium`, and `Med` for `Medium`), and a name selects
/// a level only when it is one of that level's names up to case.
pub proof fn law_effort_parse_ignores_case(s: Seq<char>, level: EffortLevel)
    ensures
        eq_ignore_case(s, effort_keyword(level)) ==> effort_of(s) == Some(level),
        eq_ignore_case(s, "med"@) ==> effort_of(s) == Some(EffortLevel::Medium),
        effort_of(s) == Some(level) ==> eq_ignore_case(s, effort_keyword(level)) || (level
            == EffortLevel::Medium && eq_ignore_case(s, "med"@)),
{
    reveal_strlit("low");
    reveal_strlit("medium");
    reveal_strlit("med");
    reveal_strlit("high");
    reveal_strlit("max");
    let kw = effort_keyword(level);
    if eq_ignore_case(s, kw) {
        if eq_ignore_case(s, "low"@) {
            lemma_ignore_case_one_keyword(s, "low"@, kw);
        }
        if eq_ignore_case(s, "medium"@) {
            lemma_ignore_case_one_keyword(s, "medium"@, kw);
        }
        if eq_ignore_case(s, "med"@) {
            lemma_ignore_case_one_keyword(s, "med"@, kw);
        }
        if eq_ignore_case(s, "high"@) {
            lemma_ignore_case_one_keyword(s, "high"@, kw);
        }
        assert("low"@[0] != "max"@[0]);
        assert("med"@[1] != "max"@[1]);
    }
    if eq_ignore_case(s, "med"@) {
        if eq_ignore_case(s, "low"@) {
            lemma_ignore_case_one_keyword(s, "low"@, "med"@);
        }
        assert("low"@[0] != "med"@[0]);
    }
}

} // verus!
