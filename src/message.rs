//! The conversation messages that the prompt stream hands to its caller, and
//! the projections between them and the protocol's content.
use vstd::prelude::*;

use crate::schema::{json_is_object, ContentBlock, PermissionRequest, ToolCallContent};
use crate::text::{join, join_strings};

verus! {

#[derive(Clone, Copy, Debug, PartialEq, Eq, Structural)]
pub enum Role {
    User,
    Assistant,
}

/// One piece of a message.
#[derive(Debug)]
pub enum MessageContent {
    Text(String),
    /// Reasoning of the agent.
    Thinking(String),
    /// A tool call that the agent started; `arguments` is its input where that
    /// is a JSON object, `None` for an empty one.
    ToolRequest { id: String, name: String, arguments: Option<serde_json::Value> },
    /// The end of a tool call, with the text it produced.
    ToolResponse { id: String, is_error: bool, content: Vec<String> },
    /// A question to the user whether a tool call may run.
    ActionRequired {
        id: String,
        tool_name: String,
        arguments: Option<serde_json::Value>,
        prompt: Option<String>,
    },
}

/// A message of the conversation, with whom it is shown to.
#[derive(Debug)]
pub struct Message {
    pub role: Role,
    pub agent_visible: bool,
    pub user_visible: bool,
    pub content: Vec<MessageContent>,
}

impl ContentBlock {
    pub open spec fn text_view(self) -> Option<Seq<char>> {
        match self {
            ContentBlock::Text(t) => Some(t@),
            ContentBlock::Other => None,
        }
    }
}

impl MessageContent {
    pub open spec fn text_view(self) -> Option<Seq<char>> {
        match self {
            MessageContent::Text(t) => Some(t@),
            _ => None,
        }
    }
}

/// The texts of the text pieces, in order.
pub open spec fn message_texts(content: Seq<MessageContent>) -> Seq<Seq<char>>
    decreases content.len(),
{
    if content.len() == 0 {
        Seq::empty()
    } else {
        match content.last().text_view() {
            Some(t) => message_texts(content.drop_last()).push(t),
            None => message_texts(content.drop_last()),
        }
    }
}

/// The texts of the text blocks among a tool call's content, in order.
pub open spec fn content_texts(content: Seq<ToolCallContent>) -> Seq<Seq<char>>
    decreases content.len(),
{
    if content.len() == 0 {
        Seq::empty()
    } else {
        match content.last().text_of() {
            Some(t) => content_texts(content.drop_last()).push(t),
            None => content_texts(content.drop_last()),
        }
    }
}

pub open spec fn is_prompt_source(m: Message) -> bool {
    m.role == Role::User && m.agent_visible
}

/// The index of the last message from the user that the agent may see.
pub open spec fn last_prompt_source(messages: Seq<Message>) -> Option<int>
    decreases messages.len(),
{
    if messages.len() == 0 {
        None
    } else if is_prompt_source(messages.last()) {
        Some(messages.len() - 1)
    } else {
        last_prompt_source(messages.drop_last())
    }
}

/// The blocks of a prompt: the texts of the last message from the user that
/// the agent may see; none where there is no such message.
pub open spec fn prompt_texts(messages: Seq<Message>) -> Seq<Seq<char>> {
    match last_prompt_source(messages) {
        Some(i) => message_texts(messages[i].content@),
        None => Seq::empty(),
    }
}

pub open spec fn blocks_are_texts(blocks: Seq<ContentBlock>, texts: Seq<Seq<char>>) -> bool {
    &&& blocks.len() == texts.len()
    &&& forall|i: int| 0 <= i < blocks.len() ==> (#[trigger] blocks[i]).text_view() == Some(texts[i])
}

fn last_prompt_index(messages: &Vec<Message>) -> (r: Option<usize>)
    ensures
        match r {
            Some(i) => last_prompt_source(messages@) == Some(i as int) && i < messages.len(),
            None => last_prompt_source(messages@).is_none(),
        },
{
    let mut i: usize = messages.len();
    assert(messages@.take(i as int) =~= messages@);
    while i > 0
        invariant
            i <= messages.len(),
            last_prompt_source(messages@) == last_prompt_source(messages@.take(i as int)),
        decreases i,
    {
        assert(messages@.take(i as int).drop_last() =~= messages@.take(i - 1));
        let m = &messages[i - 1];
        if m.role == Role::User && m.agent_visible {
            return Some(i - 1);
        }
        i = i - 1;
    }
    None
}

/// The prompt that carries the next user utterance to the agent: the text
/// blocks of the last message from the user that the agent may see.
pub fn messages_to_prompt(messages: &Vec<Message>) -> (r: Vec<ContentBlock>)
    ensures
        blocks_are_texts(r@, prompt_texts(messages@)),
{
    let mut blocks: Vec<ContentBlock> = Vec::new();
    match last_prompt_index(messages) {
        None => {},
        Some(k) => {
            proof {
                assert(messages@.take(messages.len() as int) =~= messages@);
            }
            let content = &messages[k].content;
            let mut i: usize = 0;
            while i < content.len()
                invariant
                    i <= content.len(),
                    blocks_are_texts(blocks@, message_texts(content@.take(i as int))),
                decreases content.len() - i,
            {
                assert(content@.take(i + 1).drop_last() =~= content@.take(i as int));
                if let MessageContent::Text(t) = &content[i] {
                    blocks.push(ContentBlock::Text(t.clone()));
                }
                i = i + 1;
            }
            assert(content@.take(content.len() as int) =~= content@);
        },
    }
    blocks
}

/// The texts of a tool call's text blocks, in order.
pub fn content_to_texts(content: &Vec<ToolCallContent>) -> (r: Vec<String>)
    ensures
        r@.map_values(|s: String| s@) == content_texts(content@),
{
    let mut out: Vec<String> = Vec::new();
    let mut i: usize = 0;
    while i < content.len()
        invariant
            i <= content.len(),
            out@.map_values(|s: String| s@) == content_texts(content@.take(i as int)),
        decreases content.len() - i,
    {
        assert(content@.take(i + 1).drop_last() =~= content@.take(i as int));
        if let ToolCallContent::Content(ContentBlock::Text(t)) = &content[i] {
            let ghost before = out@;
            out.push(t.clone());
            assert(out@.map_values(|s: String| s@) =~= before.map_values(|s: String| s@).push(
                t@,
            ));
        }
        i = i + 1;
    }
    assert(content@.take(content.len() as int) =~= content@);
    out
}

/// The text blocks of a tool call's content joined by newlines.
pub fn tool_call_content_to_text(content: &Vec<ToolCallContent>) -> (r: String)
    ensures
        r@ == join(content_texts(content@), "\n"@),
{
    let texts = content_to_texts(content);
    join_strings(&texts, "\n")
}

/// The body of a tool response: the joined text where it is not empty, else
/// each text block as it is.
pub open spec fn response_body(content: Seq<ToolCallContent>) -> Seq<Seq<char>> {
    let joined = join(content_texts(content), "\n"@);
    if joined.len() > 0 {
        seq![joined]
    } else {
        content_texts(content)
    }
}

pub fn tool_response_body(content: &Vec<ToolCallContent>) -> (r: Vec<String>)
    ensures
        r@.map_values(|s: String| s@) == response_body(content@),
{
    let joined = tool_call_content_to_text(content);
    if joined.unicode_len() > 0 {
        let ghost j = joined@;
        let r = vec![joined];
        assert(r@.map_values(|s: String| s@) =~= seq![j]);
        r
    } else {
        content_to_texts(content)
    }
}

/// The input where it is a JSON object; none otherwise.
pub open spec fn object_part(raw_input: Option<serde_json::Value>) -> Option<serde_json::Value> {
    match raw_input {
        Some(v) => if json_is_object(v) {
            Some(v)
        } else {
            None
        },
        None => None,
    }
}

/// A tool call's input as its arguments: the input where it is a JSON object,
/// else none, which stands for an empty object.
pub fn object_arguments(raw_input: &Option<serde_json::Value>) -> (r: Option<serde_json::Value>)
    ensures
        r == object_part(*raw_input),
{
    match raw_input {
        Some(v) => {
            if v.is_object() {
                Some(v.clone())
            } else {
                None
            }
        },
        None => None,
    }
}

/// The text of the first text block among the content.
pub open spec fn first_text(content: Seq<ToolCallContent>) -> Option<Seq<char>> {
    let t = content_texts(content);
    if t.len() > 0 {
        Some(t[0])
    } else {
        None
    }
}

/// The first text block of a permission request's content, the question put to
/// the user.
pub fn permission_prompt(request: &PermissionRequest) -> (r: Option<String>)
    ensures
        match request.content {
            Some(c) => match r {
                Some(s) => first_text(c@) == Some(s@),
                None => first_text(c@).is_none(),
            },
            None => r.is_none(),
        },
{
    match &request.content {
        None => None,
        Some(content) => {
            let texts = content_to_texts(content);
            if texts.len() > 0 {
                Some(texts[0].clone())
            } else {
                None
            }
        },
    }
}

pub open spec fn title_or_default(title: Option<String>) -> Seq<char> {
    match title {
        Some(t) => t@,
        None => "Tool"@,
    }
}

/// Whether a message is the question to the user about a permission request:
/// shown to the user only, naming the tool call, its title (or "Tool"), its
/// arguments where they are an object, and the request's first text.
pub open spec fn is_action_required(m: Message, request: PermissionRequest) -> bool {
    &&& m.role == Role::Assistant
    &&& !m.agent_visible
    &&& m.user_visible
    &&& m.content@.len() == 1
    &&& match m.content@[0] {
        MessageContent::ActionRequired { id, tool_name, arguments, prompt } => {
            &&& id@ == request.tool_call_id@
            &&& tool_name@ == title_or_default(request.title)
            &&& arguments == object_part(request.raw_input)
            &&& match request.content {
                Some(c) => match prompt {
                    Some(p) => first_text(c@) == Some(p@),
                    None => first_text(c@).is_none(),
                },
                None => prompt.is_none(),
            }
        },
        _ => false,
    }
}

/// The message that asks the user whether a tool call may run.
pub fn build_action_required_message(request: &PermissionRequest) -> (r: Message)
    ensures
        is_action_required(r, *request),
{
    let tool_name = match &request.title {
        Some(t) => t.clone(),
        None => {
            proof {
                reveal_strlit("Tool");
            }
            String::from_str("Tool")
        },
    };
    let arguments = object_arguments(&request.raw_input);
    let prompt = permission_prompt(request);
    let content = vec![
        MessageContent::ActionRequired {
            id: request.tool_call_id.clone(),
            tool_name,
            arguments,
            prompt,
        },
    ];
    Message { role: Role::Assistant, agent_visible: false, user_visible: true, content }
}

} // verus!
