use crate::ids::ToolId;
use crate::json::{items_model, json_clone, model, JsonModel, JsonValue};
use crate::text::chars_of;
use vstd::prelude::*;

verus! {

/// The version of the line protocol between agents, workbenches and the engine host.
#[derive(Debug, Clone, Copy, PartialEq, Eq, Structural)]
pub struct ProtocolVersion {
    pub major: u32,
    pub minor: u32,
}

impl ProtocolVersion {
    /// The version this engine speaks: 1.0.
    pub fn current() -> (v: Self)
        ensures
            v.major == 1 && v.minor == 0,
    {
        ProtocolVersion { major: 1, minor: 0 }
    }
}

/// A request to run one tool.
#[derive(Debug)]
pub struct ToolCall {
    pub id: String,
    pub tool: ToolId,
    pub input: JsonValue,
    pub dry_run: bool,
}

/// A tool call as plain values.
pub struct CallView {
    pub id: Seq<char>,
    pub tool: Seq<char>,
    pub input: JsonModel,
    pub dry_run: bool,
}

impl ToolCall {
    /// The call as plain values.
    pub open spec fn view(&self) -> CallView {
        CallView { id: self.id@, tool: self.tool.view(), input: model(self.input), dry_run: self.dry_run }
    }
}

impl Clone for ToolCall {
    fn clone(&self) -> (r: Self)
        ensures
            r.view() == self.view(),
    {
        ToolCall { id: self.id.clone(), tool: self.tool.clone(), input: json_clone(&self.input), dry_run: self.dry_run }
    }
}

/// How a tool call ended (`Success` is written `ok` on the wire).
#[derive(Debug, Clone, Copy, PartialEq, Eq, Structural)]
pub enum ToolResultStatus {
    Success,
    Rejected,
    Failed,
}

/// The answer to a tool call.
#[derive(Debug)]
pub struct ToolResult {
    pub call_id: String,
    pub status: ToolResultStatus,
    pub output: JsonValue,
    pub diagnostics: Vec<JsonValue>,
    pub transaction: Option<JsonValue>,
}

/// A tool result as plain values.
pub struct ResultView {
    pub call_id: Seq<char>,
    pub status: ToolResultStatus,
    pub output: JsonModel,
    pub diagnostics: Seq<JsonModel>,
    pub transaction: Option<JsonModel>,
}

impl ToolResult {
    /// The result as plain values.
    pub open spec fn view(&self) -> ResultView {
        ResultView {
            call_id: self.call_id@,
            status: self.status,
            output: model(self.output),
            diagnostics: items_model(self.diagnostics@),
            transaction: match self.transaction {
                Some(t) => Some(model(t)),
                None => None,
            },
        }
    }
}

impl Clone for ToolResult {
    fn clone(&self) -> (r: Self)
        ensures
            r.view() == self.view(),
    {
        let mut diagnostics: Vec<JsonValue> = Vec::new();
        let mut i: usize = 0;
        while i < self.diagnostics.len()
            invariant
                i <= self.diagnostics@.len(),
                diagnostics@.len() == i,
                forall|j: int| 0 <= j < i ==> model(#[trigger] diagnostics@[j]) == model(self.diagnostics@[j]),
            decreases self.diagnostics@.len() - i,
        {
            diagnostics.push(json_clone(&self.diagnostics[i]));
            i = i + 1;
        }
        assert(items_model(diagnostics@) =~= items_model(self.diagnostics@));
        ToolResult {
            call_id: self.call_id.clone(),
            status: self.status,
            output: json_clone(&self.output),
            diagnostics,
            transaction: match &self.transaction {
                Some(t) => Some(json_clone(t)),
                None => None,
            },
        }
    }
}

/// Why a protocol line could not be written or read.
#[derive(Debug)]
pub enum ProtocolError {
    Json(String),
    EmbeddedNewline,
}

impl ProtocolError {
    /// The error's message.
    pub fn message(&self) -> (m: String)
        ensures
            m@ == match self {
                ProtocolError::Json(e) => "invalid JSONL message: "@ + e@,
                ProtocolError::EmbeddedNewline => "message contains a newline"@,
            },
    {
        match self {
            ProtocolError::Json(e) => {
                let mut m = crate::text::string_of("invalid JSONL message: ");
                crate::text::push_str(&mut m, e.as_str());
                m
            },
            ProtocolError::EmbeddedNewline => crate::text::string_of("message contains a newline"),
        }
    }
}

/// Accepts an encoded message as one protocol line: refused if it holds a line feed.
pub fn frame_line(text: String) -> (r: Result<String, ProtocolError>)
    ensures
        text@.contains('\n') ==> r matches Err(ProtocolError::EmbeddedNewline),
        !text@.contains('\n') ==> (r matches Ok(line) && line@ == text@),
{
    let chars = chars_of(text.as_str());
    let mut i: usize = 0;
    while i < chars.len()
        invariant
            chars@ == text@,
            i <= chars@.len(),
            forall|j: int| 0 <= j < i ==> chars@[j] != '\n',
        decreases chars@.len() - i,
    {
        if chars[i] == '\n' {
            assert(text@[i as int] == '\n');
            return Err(ProtocolError::EmbeddedNewline);
        }
        i = i + 1;
    }
    Ok(text)
}

/// Trailing whitespace removed, as a received line is read.
pub open spec fn trimmed_end(s: Seq<char>) -> Seq<char>
    decreases s.len(),
{
    if s.len() > 0 && crate::ids::is_unicode_whitespace(s.last()) {
        trimmed_end(s.drop_last())
    } else {
        s
    }
}

/// The text of a received line without its trailing whitespace (line ending included).
pub fn unframe_line(line: &str) -> (r: String)
    ensures
        r@ == trimmed_end(line@),
{
    let chars = chars_of(line);
    let mut n: usize = chars.len();
    assert(line@.take(n as int) =~= line@);
    while n > 0 && crate::ids::is_whitespace(chars[n - 1])
        invariant
            chars@ == line@,
            n <= chars@.len(),
            trimmed_end(line@.take(n as int)) == trimmed_end(line@),
        decreases n,
    {
        assert(line@.take(n as int).drop_last() =~= line@.take(n - 1));
        n = n - 1;
    }
    assert(trimmed_end(line@.take(n as int)) == line@.take(n as int));
    let mut out = crate::text::string_of("");
    proof {
        reveal_strlit("");
    }
    let mut i: usize = 0;
    while i < n
        invariant
            chars@ == line@,
            i <= n <= chars@.len(),
            out@ == line@.take(i as int),
        decreases n - i,
    {
        crate::text::push_char(&mut out, chars[i]);
        assert(line@.take(i + 1) =~= line@.take(i as int).push(line@[i as int]));
        i = i + 1;
    }
    assert(out@ == trimmed_end(line@));
    out
}

} // verus!
