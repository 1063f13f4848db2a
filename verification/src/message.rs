//! Canonical conversation messages and their content parts.

use vstd::prelude::*;
use crate::content::{Content, ContentSpec, TextContent, ImageContent};
use crate::errors::{AgentResult, AgentErrorSpec};
use crate::tool::{ToolCall, ToolCallSpec};

verus! {

/// Who a message is from. Serialized lowercase on the wire.
#[derive(Debug, Clone, Copy, PartialEq, Eq, Structural)]
pub enum Role {
    User,
    Assistant,
}

/// A request by the model to run a tool: the id the provider assigned and
/// the call, or the error that invalidated it.
#[derive(Debug, PartialEq)]
pub struct ToolRequest {
    pub id: String,
    pub tool_call: AgentResult<ToolCall>,
}

/// The answer to a tool request: the same id and the tool's result.
#[derive(Debug, PartialEq)]
pub struct ToolResponse {
    pub id: String,
    pub tool_result: AgentResult<Vec<Content>>,
}

/// Content passed inside a message, which can be both simple content and
/// tool content.
#[derive(Debug, PartialEq)]
pub enum MessageContent {
    Text(TextContent),
    Image(ImageContent),
    ToolRequest(ToolRequest),
    ToolResponse(ToolResponse),
}

/// A message to or from the provider.
#[derive(Debug, PartialEq)]
pub struct Message {
    pub role: Role,
    pub created: i64,
    pub content: Vec<MessageContent>,
}

/// The mathematical shape of a tool request.
#[verifier::ext_equal]
pub struct ToolRequestSpec {
    pub id: Seq<char>,
    pub tool_call: Result<ToolCallSpec, AgentErrorSpec>,
}

/// The mathematical shape of a tool response.
#[verifier::ext_equal]
pub struct ToolResponseSpec {
    pub id: Seq<char>,
    pub tool_result: Result<Seq<ContentSpec>, AgentErrorSpec>,
}

/// The mathematical shape of one content part.
#[verifier::ext_equal]
pub enum MessageContentSpec {
    Text(Seq<char>),
    Image(Seq<char>, Seq<char>),
    ToolRequest(ToolRequestSpec),
    ToolResponse(ToolResponseSpec),
}

/// The mathematical shape of a message.
#[verifier::ext_equal]
pub struct MessageSpec {
    pub role: Role,
    pub created: int,
    pub content: Seq<MessageContentSpec>,
}

impl DeepView for ToolRequest {
    type V = ToolRequestSpec;

    open spec fn deep_view(&self) -> ToolRequestSpec {
        ToolRequestSpec {
            id: self.id@,
            tool_call: match self.tool_call {
                Ok(ref c) => Ok(c.deep_view()),
                Err(ref e) => Err(e.deep_view()),
            },
        }
    }
}

impl DeepView for ToolResponse {
    type V = ToolResponseSpec;

    open spec fn deep_view(&self) -> ToolResponseSpec {
        ToolResponseSpec {
            id: self.id@,
            tool_result: match self.tool_result {
                Ok(ref c) => Ok(c.deep_view()),
                Err(ref e) => Err(e.deep_view()),
            },
        }
    }
}

impl DeepView for MessageContent {
    type V = MessageContentSpec;

    open spec fn deep_view(&self) -> MessageContentSpec {
        match self {
            MessageContent::Text(t) => MessageContentSpec::Text(t.text@),
            MessageContent::Image(i) => MessageContentSpec::Image(i.data@, i.mime_type@),
            MessageContent::ToolRequest(r) => MessageContentSpec::ToolRequest(r.deep_view()),
            MessageContent::ToolResponse(r) => MessageContentSpec::ToolResponse(r.deep_view()),
        }
    }
}

impl DeepView for Message {
    type V = MessageSpec;

    open spec fn deep_view(&self) -> MessageSpec {
        MessageSpec {
            role: self.role,
            created: self.created as int,
            content: self.content.deep_view(),
        }
    }
}

/// Relies on chrono::Utc::now: a reading of the wall clock, of which
/// nothing is promised.
#[verifier::external_body]
pub(crate) fn now_unix_seconds() -> i64 {
    chrono::Utc::now().timestamp()
}

impl MessageContent {
    /// Text content built from a string slice.
    pub fn text(text: &str) -> (r: MessageContent)
        ensures
            r.deep_view() == MessageContentSpec::Text(text@),
    {
        MessageContent::Text(TextContent { text: text.to_owned() })
    }

    /// Image content built from its base64 data and mime type.
    pub fn image(data: &str, mime_type: &str) -> (r: MessageContent)
        ensures
            r.deep_view() == MessageContentSpec::Image(data@, mime_type@),
    {
        MessageContent::Image(ImageContent {
            data: data.to_owned(),
            mime_type: mime_type.to_owned(),
        })
    }

    /// A tool request part from its id and call.
    pub fn tool_request(id: &str, tool_call: AgentResult<ToolCall>) -> (r: MessageContent)
        ensures
            r.deep_view() == MessageContentSpec::ToolRequest(ToolRequestSpec {
                id: id@,
                tool_call: match tool_call {
                    Ok(c) => Ok(c.deep_view()),
                    Err(e) => Err(e.deep_view()),
                },
            }),
    {
        MessageContent::ToolRequest(ToolRequest { id: id.to_owned(), tool_call })
    }

    /// A tool response part from its id and result.
    pub fn tool_response(id: &str, tool_result: AgentResult<Vec<Content>>) -> (r: MessageContent)
        ensures
            r.deep_view() == MessageContentSpec::ToolResponse(ToolResponseSpec {
                id: id@,
                tool_result: match tool_result {
                    Ok(c) => Ok(c.deep_view()),
                    Err(e) => Err(e.deep_view()),
                },
            }),
    {
        MessageContent::ToolResponse(ToolResponse { id: id.to_owned(), tool_result })
    }

    /// The tool request inside this part, if it is one.
    pub fn as_tool_request<'a>(&'a self) -> (r: Option<&'a ToolRequest>)
        ensures
            match r {
                Some(t) => self.deep_view() == MessageContentSpec::ToolRequest(t.deep_view()),
                None => !(self.deep_view() is ToolRequest),
            },
    {
        if let MessageContent::ToolRequest(ref tool_request) = self {
            Some(tool_request)
        } else {
            None
        }
    }

    /// The text of this part, if it is text.
    pub fn as_text<'a>(&'a self) -> (r: Option<&'a str>)
        ensures
            match r {
                Some(t) => self.deep_view() == MessageContentSpec::Text(t@),
                None => !(self.deep_view() is Text),
            },
    {
        match self {
            MessageContent::Text(text) => Some(text.text.as_str()),
            _ => None,
        }
    }
}

impl From<Content> for MessageContent {
    fn from(content: Content) -> (r: MessageContent) {
        match content {
            Content::Text(text) => MessageContent::Text(text),
            Content::Image(image) => MessageContent::Image(image),
        }
    }
}

impl vstd::std_specs::convert::FromSpecImpl<Content> for MessageContent {
    open spec fn obeys_from_spec() -> bool {
        true
    }

    open spec fn from_spec(content: Content) -> MessageContent {
        match content {
            Content::Text(text) => MessageContent::Text(text),
            Content::Image(image) => MessageContent::Image(image),
        }
    }
}

impl Message {
    /// A new user message stamped with the current time, no content yet.
    pub fn user() -> (r: Message)
        ensures
            r.deep_view().role == Role::User,
            r.deep_view().content == Seq::<MessageContentSpec>::empty(),
    {
        Message { role: Role::User, created: now_unix_seconds(), content: Vec::new() }
    }

    /// A new assistant message stamped with the current time, no content yet.
    pub fn assistant() -> (r: Message)
        ensures
            r.deep_view().role == Role::Assistant,
            r.deep_view().content == Seq::<MessageContentSpec>::empty(),
    {
        Message { role: Role::Assistant, created: now_unix_seconds(), content: Vec::new() }
    }

    /// The message with one more content part at the end.
    pub fn with_content(self, content: MessageContent) -> (r: Message)
        ensures
            r.deep_view() == (MessageSpec {
                content: self.deep_view().content.push(content.deep_view()),
                ..self.deep_view()
            }),
    {
        let ghost orig = self.deep_view();
        let ghost part = content.deep_view();
        let mut m = self;
        m.content.push(content);
        proof {
            assert(m.deep_view().content =~= orig.content.push(part));
        }
        m
    }

    /// Text content added at the end.
    pub fn with_text(self, text: &str) -> (r: Message)
        ensures
            r.deep_view() == (MessageSpec {
                content: self.deep_view().content.push(MessageContentSpec::Text(text@)),
                ..self.deep_view()
            }),
    {
        self.with_content(MessageContent::text(text))
    }

    /// Image content added at the end.
    pub fn with_image(self, data: &str, mime_type: &str) -> (r: Message)
        ensures
            r.deep_view() == (MessageSpec {
                content: self.deep_view().content.push(
                    MessageContentSpec::Image(data@, mime_type@),
                ),
                ..self.deep_view()
            }),
    {
        self.with_content(MessageContent::image(data, mime_type))
    }

    /// A tool request added at the end.
    pub fn with_tool_request(self, id: &str, tool_call: AgentResult<ToolCall>) -> (r: Message)
        ensures
            r.deep_view() == (MessageSpec {
                content: self.deep_view().content.push(
                    MessageContentSpec::ToolRequest(ToolRequestSpec {
                        id: id@,
                        tool_call: match tool_call {
                            Ok(c) => Ok(c.deep_view()),
                            Err(e) => Err(e.deep_view()),
                        },
                    }),
                ),
                ..self.deep_view()
            }),
    {
        self.with_content(MessageContent::tool_request(id, tool_call))
    }

    /// A tool response added at the end.
    pub fn with_tool_response(self, id: &str, result: AgentResult<Vec<Content>>) -> (r: Message)
        ensures
            r.deep_view() == (MessageSpec {
                content: self.deep_view().content.push(
                    MessageContentSpec::ToolResponse(ToolResponseSpec {
                        id: id@,
                        tool_result: match result {
                            Ok(c) => Ok(c.deep_view()),
                            Err(e) => Err(e.deep_view()),
                        },
                    }),
                ),
                ..self.deep_view()
            }),
    {
        self.with_content(MessageContent::tool_response(id, result))
    }
}


/// The view of one tool result.
pub open spec fn tool_result_view(r: AgentResult<Vec<Content>>) -> Result<
    Seq<ContentSpec>,
    AgentErrorSpec,
> {
    match r {
        Ok(c) => Ok(c.deep_view()),
        Err(e) => Err(e.deep_view()),
    }
}

} // verus!
