//! What the agent learns from a conversation: the transcript it reviews, when
//! it reviews it, and how it reads the review.
use vstd::prelude::*;
use crate::message::{msgs_view, Message, MessageView, Role};
use crate::text::{
    append_str, chars_of, join, owned, push_str, starts_with, starts_with_exec, string_of, trim,
    trim_exec,
};

verus! {

/// A past session as found again in memory.
pub struct SessionSummary {
    pub session_id: String,
    pub summary: String,
    pub key_decisions: Vec<String>,
}

/// The line of the transcript for a message, if it is shown: the user's and
/// the assistant's messages are, the others are not.
pub open spec fn transcript_line(m: MessageView) -> Option<Seq<char>> {
    if m.role == Role::User {
        Some("User: "@ + m.content)
    } else if m.role == Role::Assistant {
        Some("Assistant: "@ + m.content)
    } else {
        None
    }
}

/// The shown lines of the messages, in order.
pub open spec fn transcript_lines(ms: Seq<MessageView>) -> Seq<Seq<char>>
    decreases ms.len(),
{
    if ms.len() == 0 {
        Seq::empty()
    } else {
        match transcript_line(ms.last()) {
            Some(l) => transcript_lines(ms.drop_last()).push(l),
            None => transcript_lines(ms.drop_last()),
        }
    }
}

/// The transcript that is reviewed: the user's and the assistant's messages,
/// one per line.
pub fn format_messages(messages: &[Message]) -> (r: String)
    ensures
        r@ == join(transcript_lines(msgs_view(messages@)), "\n"@),
{
    let ghost ms = msgs_view(messages@);
    let mut out: Vec<char> = Vec::new();
    let mut any = false;
    let mut i: usize = 0;
    while i < messages.len()
        invariant
            i <= messages.len(),
            ms == msgs_view(messages@),
            any == (transcript_lines(ms.take(i as int)).len() > 0),
            out@ == join(transcript_lines(ms.take(i as int)), "\n"@),
        decreases messages.len() - i,
    {
        let m = &messages[i];
        assert(ms.take(i + 1).drop_last() =~= ms.take(i as int));
        assert(ms.take(i + 1).last() == m@);
        let ghost prev = transcript_lines(ms.take(i as int));
        let shown = match m.role {
            Role::User => true,
            Role::Assistant => true,
            _ => false,
        };
        if shown {
            let ghost before = out@;
            if any {
                append_str(&mut out, "\n");
            }
            match m.role {
                Role::User => append_str(&mut out, "User: "),
                _ => append_str(&mut out, "Assistant: "),
            }
            append_str(&mut out, m.content.as_str());
            proof {
                let l = transcript_line(m@)->0;
                crate::text::lemma_join_push(prev, l, "\n"@);
                if any {
                    assert(out@ =~= before + "\n"@ + l);
                } else {
                    assert(out@ =~= before + l);
                }
            }
            any = true;
        }
        i += 1;
    }
    assert(ms.take(messages.len() as int) =~= ms);
    string_of(out.as_slice())
}

/// Whether the review is due on turn `turn`: every `interval` turns.
pub fn nudge_due(turn: usize, interval: usize) -> (r: bool)
    requires
        interval > 0,
    ensures
        r == (turn % interval == 0),
{
    turn % interval == 0
}

/// What the review answered, if it found something notable: the trimmed text
/// after `NOTABLE:`, offered to the user to save.
pub open spec fn nudge_text(response: Seq<char>) -> Option<Seq<char>> {
    let t = trim(response);
    if starts_with(t, "NOTABLE:"@) {
        Some(
            "I noticed some information worth remembering: "@ + trim(t.skip(8))
                + "\nWould you like me to save this?"@,
        )
    } else {
        None
    }
}

/// Reads the answer of a review.
pub fn nudge_from_response(response: &str) -> (r: Option<String>)
    ensures
        match r {
            Some(m) => nudge_text(response@) == Some(m@),
            None => nudge_text(response@) is None,
        },
{
    let cs = chars_of(response);
    let t = trim_exec(cs.as_slice());
    let tag = chars_of("NOTABLE:");
    if !starts_with_exec(t.as_slice(), tag.as_slice()) {
        return None;
    }
    proof {
        reveal_strlit("NOTABLE:");
    }
    let rest = crate::text::slice_vec(t.as_slice(), 8, t.len());
    assert(t@.subrange(8, t@.len() as int) =~= t@.skip(8));
    let summary = trim_exec(rest.as_slice());
    let mut out: Vec<char> = Vec::new();
    append_str(&mut out, "I noticed some information worth remembering: ");
    crate::text::append_chars(&mut out, summary.as_slice());
    append_str(&mut out, "\nWould you like me to save this?");
    Some(string_of(out.as_slice()))
}

} // verus!
