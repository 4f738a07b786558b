//! Chat messages exchanged with the language model.
//!
//! A tool call's arguments are held as their JSON text (compact form).
use vstd::prelude::*;
use crate::text::owned;

verus! {

/// Who wrote a message.
#[derive(Clone, Copy, Debug, PartialEq, Eq, Structural)]
pub enum Role {
    System,
    User,
    Assistant,
    Tool,
}

/// A request of the model to run one tool.
#[derive(Clone, Debug)]
pub struct ToolCall {
    pub id: String,
    pub name: String,
    /// The arguments as JSON text.
    pub arguments: String,
}

/// One message of a conversation.
#[derive(Clone, Debug)]
pub struct Message {
    pub role: Role,
    pub content: String,
    pub tool_calls: Option<Vec<ToolCall>>,
    pub tool_call_id: Option<String>,
}

/// The mathematical value of a [`ToolCall`].
pub ghost struct ToolCallView {
    pub id: Seq<char>,
    pub name: Seq<char>,
    pub arguments: Seq<char>,
}

/// The mathematical value of a [`Message`].
pub ghost struct MessageView {
    pub role: Role,
    pub content: Seq<char>,
    pub tool_calls: Option<Seq<ToolCallView>>,
    pub tool_call_id: Option<Seq<char>>,
}

impl View for ToolCall {
    type V = ToolCallView;

    open spec fn view(&self) -> ToolCallView {
        ToolCallView { id: self.id@, name: self.name@, arguments: self.arguments@ }
    }
}

/// The views of a sequence of tool calls.
pub open spec fn calls_view(cs: Seq<ToolCall>) -> Seq<ToolCallView> {
    Seq::new(cs.len(), |i: int| cs[i]@)
}

impl View for Message {
    type V = MessageView;

    open spec fn view(&self) -> MessageView {
        MessageView {
            role: self.role,
            content: self.content@,
            tool_calls: match self.tool_calls {
                Some(cs) => Some(calls_view(cs@)),
                None => None,
            },
            tool_call_id: match self.tool_call_id {
                Some(id) => Some(id@),
                None => None,
            },
        }
    }
}

/// The views of a sequence of messages.
pub open spec fn msgs_view(ms: Seq<Message>) -> Seq<MessageView> {
    Seq::new(ms.len(), |i: int| ms[i]@)
}

/// A message with the given role and text and nothing else.
pub open spec fn plain(role: Role, content: Seq<char>) -> MessageView {
    MessageView { role, content, tool_calls: None, tool_call_id: None }
}

impl ToolCall {
    /// A tool call with the given id, tool name and JSON arguments.
    pub fn new(id: &str, name: &str, arguments: &str) -> (r: ToolCall)
        ensures
            r@ == (ToolCallView { id: id@, name: name@, arguments: arguments@ }),
    {
        ToolCall { id: owned(id), name: owned(name), arguments: owned(arguments) }
    }

    /// An equal copy.
    pub fn copy(&self) -> (r: ToolCall)
        ensures
            r@ == self@,
    {
        ToolCall { id: self.id.clone(), name: self.name.clone(), arguments: self.arguments.clone() }
    }
}

/// An equal copy of a list of tool calls.
pub fn copy_calls(cs: &Vec<ToolCall>) -> (r: Vec<ToolCall>)
    ensures
        calls_view(r@) == calls_view(cs@),
{
    let mut r: Vec<ToolCall> = Vec::new();
    let mut i: usize = 0;
    while i < cs.len()
        invariant
            i <= cs.len(),
            calls_view(r@) == calls_view(cs@).take(i as int),
        decreases cs.len() - i,
    {
        let c = cs[i].copy();
        assert(c@ == cs@[i as int]@);
        let ghost old_r = r@;
        assert(calls_view(old_r).len() == i);
        r.push(c);
        proof {
            assert(r@ == old_r.push(c));
            assert forall|k: int| 0 <= k < i + 1 implies calls_view(r@)[k] == calls_view(cs@)[k] by {
                if k < i {
                    assert(calls_view(old_r)[k] == calls_view(cs@).take(i as int)[k]);
                }
            }
        }
        i += 1;
        assert(calls_view(r@) =~= calls_view(cs@).take(i as int));
    }
    assert(calls_view(cs@).take(cs.len() as int) =~= calls_view(cs@));
    r
}

impl Message {
    /// A system message.
    pub fn system(content: &str) -> (r: Message)
        ensures
            r@ == plain(Role::System, content@),
    {
        Message { role: Role::System, content: owned(content), tool_calls: None, tool_call_id: None }
    }

    /// A user message.
    pub fn user(content: &str) -> (r: Message)
        ensures
            r@ == plain(Role::User, content@),
    {
        Message { role: Role::User, content: owned(content), tool_calls: None, tool_call_id: None }
    }

    /// An assistant message with text only.
    pub fn assistant(content: &str) -> (r: Message)
        ensures
            r@ == plain(Role::Assistant, content@),
    {
        Message {
            role: Role::Assistant,
            content: owned(content),
            tool_calls: None,
            tool_call_id: None,
        }
    }

    /// An assistant message that requests tool calls and has no text.
    pub fn assistant_with_tool_calls(tool_calls: Vec<ToolCall>) -> (r: Message)
        ensures
            r@ == (MessageView {
                role: Role::Assistant,
                content: Seq::empty(),
                tool_calls: Some(calls_view(tool_calls@)),
                tool_call_id: None,
            }),
    {
        Message {
            role: Role::Assistant,
            content: String::new(),
            tool_calls: Some(tool_calls),
            tool_call_id: None,
        }
    }

    /// An assistant message with text that also requests tool calls.
    pub fn assistant_with_content_and_tool_calls(content: &str, tool_calls: Vec<ToolCall>) -> (r:
        Message)
        ensures
            r@ == (MessageView {
                role: Role::Assistant,
                content: content@,
                tool_calls: Some(calls_view(tool_calls@)),
                tool_call_id: None,
            }),
    {
        Message {
            role: Role::Assistant,
            content: owned(content),
            tool_calls: Some(tool_calls),
            tool_call_id: None,
        }
    }

    /// The result of the tool call `tool_call_id`.
    pub fn tool_result(tool_call_id: &str, content: &str) -> (r: Message)
        ensures
            r@ == (MessageView {
                role: Role::Tool,
                content: content@,
                tool_calls: None,
                tool_call_id: Some(tool_call_id@),
            }),
    {
        Message {
            role: Role::Tool,
            content: owned(content),
            tool_calls: None,
            tool_call_id: Some(owned(tool_call_id)),
        }
    }

    /// An equal copy.
    pub fn copy(&self) -> (r: Message)
        ensures
            r@ == self@,
    {
        let tool_calls = match &self.tool_calls {
            Some(cs) => Some(copy_calls(cs)),
            None => None,
        };
        let tool_call_id = match &self.tool_call_id {
            Some(id) => Some(id.clone()),
            None => None,
        };
        Message { role: self.role, content: self.content.clone(), tool_calls, tool_call_id }
    }
}

/// An equal copy of a list of messages.
pub fn copy_messages(ms: &[Message]) -> (r: Vec<Message>)
    ensures
        msgs_view(r@) == msgs_view(ms@),
{
    let mut r: Vec<Message> = Vec::new();
    let mut i: usize = 0;
    while i < ms.len()
        invariant
            i <= ms.len(),
            msgs_view(r@) == msgs_view(ms@).take(i as int),
        decreases ms.len() - i,
    {
        let m = ms[i].copy();
        assert(m@ == ms@[i as int]@);
        let ghost old_r = r@;
        assert(msgs_view(old_r).len() == i);
        r.push(m);
        proof {
            assert(r@ == old_r.push(m));
            assert forall|k: int| 0 <= k < i + 1 implies msgs_view(r@)[k] == msgs_view(ms@)[k] by {
                if k < i {
                    assert(msgs_view(old_r)[k] == msgs_view(ms@).take(i as int)[k]);
                }
            }
        }
        i += 1;
        assert(msgs_view(r@) =~= msgs_view(ms@).take(i as int));
    }
    assert(msgs_view(ms@).take(ms.len() as int) =~= msgs_view(ms@));
    r
}

} // verus!
