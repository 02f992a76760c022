//! The call to the model: what is sent, and how the decision is found in the reply.

use super::decision::{decision_tool, decision_tool_definition, ToolDefinition, ToolView, TOOL_NAME};
use crate::http::{field, field_views, Field, Method, Request, RequestView};
use crate::text;
use crate::text::maybe;
use vstd::prelude::*;

verus! {

pub const API_URL: &'static str = "https://api.anthropic.com/v1/messages";

pub const API_VERSION: &'static str = "2023-06-01";

pub const MAX_TOKENS: u32 = 1024;

pub struct AnthropicClient {
    api_key: String,
    model: String,
}

/// One message of a conversation.
#[derive(Debug)]
pub struct Message {
    pub role: String,
    pub content: String,
}

/// A request for a message of the model. The model must answer by calling the named tool.
#[derive(Debug)]
pub struct MessagesRequest {
    pub request: Request,
    pub model: String,
    pub max_tokens: u32,
    pub system: String,
    pub messages: Vec<Message>,
    pub tools: Vec<ToolDefinition>,
    pub forced_tool: String,
}

/// What a request for a message says.
pub struct MessagesView {
    pub request: RequestView,
    pub model: Seq<char>,
    pub max_tokens: u32,
    pub system: Seq<char>,
    /// Role and content of each message.
    pub messages: Seq<(Seq<char>, Seq<char>)>,
    pub tools: Seq<ToolView>,
    pub forced_tool: Seq<char>,
}

impl View for MessagesRequest {
    type V = MessagesView;

    open spec fn view(&self) -> MessagesView {
        MessagesView {
            request: self.request@,
            model: self.model@,
            max_tokens: self.max_tokens,
            system: self.system@,
            messages: self.messages@.map_values(|m: Message| (m.role@, m.content@)),
            tools: self.tools@.map_values(|t: ToolDefinition| t@),
            forced_tool: self.forced_tool@,
        }
    }
}

/// The request that asks for a decision.
pub open spec fn decision_request(
    api_key: Seq<char>,
    model: Seq<char>,
    system: Seq<char>,
    user: Seq<char>,
) -> MessagesView {
    MessagesView {
        request: RequestView {
            method: Method::Post,
            url: API_URL@,
            headers: seq![
                ("x-api-key"@, api_key),
                ("anthropic-version"@, API_VERSION@),
                ("content-type"@, "application/json"@),
            ],
        },
        model,
        max_tokens: MAX_TOKENS,
        system,
        messages: seq![("user"@, user)],
        tools: seq![decision_tool()],
        forced_tool: TOOL_NAME@,
    }
}

/// A block of the reply, as far as the decision is looked for in it.
#[derive(Debug)]
pub struct ContentBlock {
    pub block_type: String,
    /// Name of the tool, in a block that calls one.
    pub name: Option<String>,
    /// Whether the block has an input for the tool.
    pub has_input: bool,
}

/// Whether a block calls the tool that carries a decision.
pub open spec fn carries_decision(b: ContentBlock) -> bool {
    b.block_type@ == "tool_use"@ && maybe(b.name) == Some(TOOL_NAME@) && b.has_input
}

/// Why there is no decision.
#[derive(Debug)]
pub enum ReplyError {
    /// The service refused, with a status and a text.
    Refused { status: String, body: String },
    /// The reply does not call the tool.
    NoDecision,
}

impl ReplyError {
    pub open spec fn text(self) -> Seq<char> {
        match self {
            ReplyError::Refused { status, body } => {
                "Anthropic API error ["@ + status@ + "]: "@ + body@
            },
            ReplyError::NoDecision => {
                "No submit_decision tool call found in Anthropic response"@
            },
        }
    }

    pub fn message(&self) -> (r: String)
        ensures
            r@ == self.text(),
    {
        match self {
            ReplyError::Refused { status, body } => {
                let mut out: String = "Anthropic API error [".to_string();
                out.append(status.as_str());
                out.append("]: ");
                out.append(body.as_str());
                out
            },
            ReplyError::NoDecision => {
                "No submit_decision tool call found in Anthropic response".to_string()
            },
        }
    }
}

impl AnthropicClient {
    pub closed spec fn key(self) -> Seq<char> {
        self.api_key@
    }

    pub closed spec fn model_name(self) -> Seq<char> {
        self.model@
    }

    pub fn new(api_key: String, model: String) -> (r: AnthropicClient)
        ensures
            r.key() == api_key@,
            r.model_name() == model@,
    {
        AnthropicClient { api_key, model }
    }

    /// The call that asks the model for a decision. It must be answered through the tool.
    pub fn call_with_tools(&self, system: &str, user_msg: &str) -> (r: MessagesRequest)
        ensures
            r@ == decision_request(self.key(), self.model_name(), system@, user_msg@),
    {
        let headers: Vec<Field> = vec![
            field("x-api-key", self.api_key.as_str()),
            field("anthropic-version", API_VERSION),
            field("content-type", "application/json"),
        ];
        let messages: Vec<Message> = vec![
            Message { role: "user".to_string(), content: user_msg.to_string() },
        ];
        let tools: Vec<ToolDefinition> = vec![decision_tool_definition()];
        assert(field_views(headers@) =~= seq![
            ("x-api-key"@, self.key()),
            ("anthropic-version"@, API_VERSION@),
            ("content-type"@, "application/json"@),
        ]);
        assert(messages@.map_values(|m: Message| (m.role@, m.content@)) =~= seq![
            ("user"@, user_msg@),
        ]);
        assert(tools@.map_values(|t: ToolDefinition| t@) =~= seq![decision_tool()]);
        MessagesRequest {
            request: Request { method: Method::Post, url: API_URL.to_string(), headers },
            model: self.model.clone(),
            max_tokens: MAX_TOKENS,
            system: system.to_string(),
            messages,
            tools,
            forced_tool: TOOL_NAME.to_string(),
        }
    }

    /// Lets a reply through if the service reported success.
    pub fn accept(success: bool, status: &str, body: &str) -> (r: Result<(), ReplyError>)
        ensures
            match r {
                Ok(()) => success,
                Err(e) => !success && (e matches ReplyError::Refused { status: s, body: b } && s@
                    == status@ && b@ == body@),
            },
    {
        if success {
            Ok(())
        } else {
            Err(ReplyError::Refused { status: status.to_string(), body: body.to_string() })
        }
    }

    /// The first block of a reply that carries a decision.
    pub fn find_decision(blocks: &Vec<ContentBlock>) -> (r: Result<usize, ReplyError>)
        ensures
            match r {
                Ok(i) => {
                    &&& i < blocks.len()
                    &&& carries_decision(blocks[i as int])
                    &&& forall|j: int| 0 <= j < i ==> !carries_decision(#[trigger] blocks[j])
                },
                Err(e) => {
                    &&& e is NoDecision
                    &&& forall|j: int|
                        0 <= j < blocks.len() ==> !carries_decision(#[trigger] blocks[j])
                },
            },
    {
        let mut i: usize = 0;
        while i < blocks.len()
            invariant
                i <= blocks.len(),
                forall|j: int| 0 <= j < i ==> !carries_decision(#[trigger] blocks[j]),
            decreases blocks.len() - i,
        {
            let block: &ContentBlock = &blocks[i];
            let named: bool = match &block.name {
                Some(name) => text::same(name.as_str(), TOOL_NAME),
                None => false,
            };
            if text::same(block.block_type.as_str(), "tool_use") && named && block.has_input {
                return Ok(i);
            }
            i = i + 1;
        }
        Err(ReplyError::NoDecision)
    }
}

} // verus!
