//! Keeping the conversation short: when its text grows past a threshold, the model
//! summarizes it and the history is replaced by that summary and the last turns.
use vstd::prelude::*;
use vstd::utf8::encode_utf8;

use crate::chat::{conversation, Message, Role};
use crate::text::{byte_len, concat};

verus! {

/// The instruction that asks the model for a summary of the conversation.
pub open spec fn summary_instruction() -> Seq<char> {
    "Summarize the entire conversation so far in a concise way. Keep key facts, decisions, and important details. Output ONLY the summary, nothing else."@
}

/// The total size in UTF-8 bytes of the texts of a conversation.
pub open spec fn text_bytes(c: Seq<(Role, Seq<char>)>) -> int
    decreases c.len(),
{
    if c.len() == 0 {
        0
    } else {
        text_bytes(c.drop_last()) + encode_utf8(c.last().1).len()
    }
}

/// A conversation holds at least as many text bytes as any of its beginnings.
pub proof fn lemma_text_bytes_prefix(c: Seq<(Role, Seq<char>)>, k: int)
    requires
        0 <= k <= c.len(),
    ensures
        text_bytes(c.take(k)) <= text_bytes(c),
    decreases c.len() - k,
{
    if k < c.len() {
        lemma_text_bytes_prefix(c, k + 1);
        assert(c.take(k + 1).drop_last() =~= c.take(k));
    } else {
        assert(c.take(k) =~= c);
    }
}

/// Law: appending a message of any role to a conversation adds exactly the UTF-8
/// length of its text to the counted size.
pub proof fn law_appended_message_counts(c: Seq<(Role, Seq<char>)>, role: Role, text: Seq<char>)
    ensures
        text_bytes(c.push((role, text))) == text_bytes(c) + encode_utf8(text).len(),
{
    assert(c.push((role, text)).drop_last() =~= c);
}

/// Law: the counted size of a conversation is at least the UTF-8 length of the text
/// of each of its messages, whatever its role; so a conversation holding one message
/// longer than the threshold is past it.
pub proof fn law_each_message_counts(c: Seq<(Role, Seq<char>)>, k: int, threshold: int)
    requires
        0 <= k < c.len(),
    ensures
        text_bytes(c) >= encode_utf8(c[k].1).len(),
        encode_utf8(c[k].1).len() > threshold ==> text_bytes(c) > threshold,
    decreases c.len(),
{
    lemma_text_bytes_nonneg(c.drop_last());
    if k < c.len() - 1 {
        law_each_message_counts(c.drop_last(), k, threshold);
    }
}

/// The counted size is never negative.
proof fn lemma_text_bytes_nonneg(c: Seq<(Role, Seq<char>)>)
    ensures
        text_bytes(c) >= 0,
    decreases c.len(),
{
    if c.len() > 0 {
        lemma_text_bytes_nonneg(c.drop_last());
    }
}

/// Whether the texts of the conversation exceed `threshold` bytes in total.
pub fn needs_summary(messages: &Vec<Message>, threshold: usize) -> (r: bool)
    ensures
        r == (text_bytes(conversation(messages@)) > threshold),
{
    let ghost c = conversation(messages@);
    let mut total: usize = 0;
    let mut i: usize = 0;
    while i < messages.len()
        invariant
            i <= messages@.len(),
            c == conversation(messages@),
            total == text_bytes(c.take(i as int)),
            total <= threshold,
        decreases messages@.len() - i,
    {
        let b = byte_len(messages[i].content.as_str());
        assert(c.take(i + 1).drop_last() =~= c.take(i as int));
        assert(c.take(i + 1).last() == c[i as int]);
        if b > threshold - total {
            proof {
                lemma_text_bytes_prefix(c, i + 1);
            }
            return true;
        }
        total = total + b;
        i = i + 1;
    }
    assert(c.take(messages@.len() as int) =~= c);
    false
}

/// The messages sent to ask for a summary: the summary instruction as a system
/// message, then the whole conversation.
pub fn summary_request(messages: &Vec<Message>) -> (r: Vec<Message>)
    ensures
        conversation(r@) == seq![(Role::System, summary_instruction())] + conversation(
            messages@,
        ),
{
    let mut r: Vec<Message> = Vec::new();
    r.push(
        Message::new(
            Role::System,
            String::from_str(
                "Summarize the entire conversation so far in a concise way. Keep key facts, decisions, and important details. Output ONLY the summary, nothing else.",
            ),
        ),
    );
    let ghost head = seq![(Role::System, summary_instruction())];
    let mut i: usize = 0;
    while i < messages.len()
        invariant
            i <= messages@.len(),
            conversation(r@) == head + conversation(messages@).take(i as int),
        decreases messages@.len() - i,
    {
        let ghost before = conversation(r@);
        r.push(messages[i].clone());
        assert(conversation(r@) =~= before.push(conversation(messages@)[i as int]));
        assert(conversation(messages@).take(i + 1) =~= conversation(messages@).take(i as int).push(
            conversation(messages@)[i as int],
        ));
        i = i + 1;
    }
    assert(conversation(messages@).take(messages@.len() as int) =~= conversation(messages@));
    r
}

/// The messages sent to have a tool output summarized: the summarizer prompt as a
/// system message and the output as a user message.
pub fn summarizer_request(prompt: &str, raw_output: &str) -> (r: Vec<Message>)
    ensures
        conversation(r@) == seq![(Role::System, prompt@), (Role::User, raw_output@)],
{
    let mut r: Vec<Message> = Vec::new();
    r.push(Message::new(Role::System, String::from_str(prompt)));
    r.push(Message::new(Role::User, String::from_str(raw_output)));
    assert(conversation(r@) =~= seq![(Role::System, prompt@), (Role::User, raw_output@)]);
    r
}

/// The last (at most four) turns of a conversation.
pub open spec fn last_turns(c: Seq<(Role, Seq<char>)>) -> Seq<(Role, Seq<char>)> {
    if c.len() <= 4 {
        c
    } else {
        c.subrange(c.len() - 4, c.len() as int)
    }
}

/// Replaces the conversation by the summary and the last turns: a system message
/// `Previous conversation summary:\n<summary>` followed by the last (at most four)
/// messages, in order. An empty summary leaves the conversation as it was.
pub fn apply_summary(messages: &mut Vec<Message>, summary: &str)
    ensures
        summary@.len() == 0 ==> conversation(final(messages)@) == conversation(old(messages)@),
        summary@.len() > 0 ==> conversation(final(messages)@) == seq![
            (Role::System, "Previous conversation summary:\n"@ + summary@),
        ] + last_turns(conversation(old(messages)@)),
{
    if summary.is_empty() {
        return;
    }
    let ghost old_c = conversation(messages@);
    let n = messages.len();
    let start = if n > 4 {
        n - 4
    } else {
        0
    };
    let mut kept: Vec<Message> = Vec::new();
    kept.push(Message::new(Role::System, concat("Previous conversation summary:\n", summary)));
    let ghost head = seq![(Role::System, "Previous conversation summary:\n"@ + summary@)];
    let mut i = start;
    while i < n
        invariant
            start <= i <= n,
            n == messages@.len(),
            old_c == conversation(messages@),
            conversation(kept@) == head + old_c.subrange(start as int, i as int),
        decreases n - i,
    {
        let ghost before = conversation(kept@);
        kept.push(messages[i].clone());
        assert(conversation(kept@) =~= before.push(old_c[i as int]));
        assert(old_c.subrange(start as int, i + 1) =~= old_c.subrange(start as int, i as int).push(
            old_c[i as int],
        ));
        i = i + 1;
    }
    assert(last_turns(old_c) =~= old_c.subrange(start as int, n as int));
    *messages = kept;
}

/// Law: once a non-empty summary has been applied, the conversation holds at most
/// five messages; it opens with the summary as a system message, and it ends with
/// the message that ended it before; a conversation of at most four messages is kept
/// whole after the summary.
pub proof fn law_summary_bounds_history(before: Seq<(Role, Seq<char>)>, summary: Seq<char>)
    requires
        summary.len() > 0,
    ensures
        ({
            let after = seq![(Role::System, "Previous conversation summary:\n"@ + summary)]
                + last_turns(before);
            &&& after.len() <= 5
            &&& after[0] == (Role::System, "Previous conversation summary:\n"@ + summary)
            &&& before.len() > 0 ==> after.last() == before.last()
            &&& before.len() <= 4 ==> after.drop_first() == before
        }),
{
    let head = seq![(Role::System, "Previous conversation summary:\n"@ + summary)];
    let after = head + last_turns(before);
    assert(after.drop_first() =~= last_turns(before));
}

} // verus!
