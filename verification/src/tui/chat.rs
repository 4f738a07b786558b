//! The entries of the transcript.
use vstd::prelude::*;
use crate::tui::tool_block::{ToolBlock, ToolBlockView};

verus! {

/// One entry of the transcript.
#[derive(Debug, Clone)]
pub enum ChatMessage {
    User(String),
    Assistant(String),
    ToolCall(ToolBlock),
    System(String),
    Error(String),
}

/// The value of a [`ChatMessage`].
pub ghost enum ChatView {
    User(Seq<char>),
    Assistant(Seq<char>),
    ToolCall(ToolBlockView),
    System(Seq<char>),
    Error(Seq<char>),
}

impl View for ChatMessage {
    type V = ChatView;

    open spec fn view(&self) -> ChatView {
        match self {
            ChatMessage::User(t) => ChatView::User(t@),
            ChatMessage::Assistant(t) => ChatView::Assistant(t@),
            ChatMessage::ToolCall(b) => ChatView::ToolCall(b@),
            ChatMessage::System(t) => ChatView::System(t@),
            ChatMessage::Error(t) => ChatView::Error(t@),
        }
    }
}

/// The values of the entries of a transcript.
pub open spec fn chats_view(v: Seq<ChatMessage>) -> Seq<ChatView> {
    v.map_values(|m: ChatMessage| m@)
}

} // verus!
