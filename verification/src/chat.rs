//! Chat messages exchanged with the model.
use vstd::prelude::*;

verus! {

/// Who a message comes from.
#[derive(PartialEq, Eq, Structural, Clone, Copy, Debug)]
pub enum Role {
    System,
    User,
    Assistant,
    Tool,
}

/// The wire name of a role.
pub open spec fn role_name(r: Role) -> Seq<char> {
    match r {
        Role::System => "system"@,
        Role::User => "user"@,
        Role::Assistant => "assistant"@,
        Role::Tool => "tool"@,
    }
}

impl Role {
    /// The wire name of this role (`system`, `user`, `assistant` or `tool`).
    pub fn name(&self) -> (r: &'static str)
        ensures
            r@ == role_name(*self),
    {
        match self {
            Role::System => "system",
            Role::User => "user",
            Role::Assistant => "assistant",
            Role::Tool => "tool",
        }
    }
}

/// One message of the conversation.
#[derive(Debug)]
pub struct Message {
    pub role: Role,
    pub content: String,
}

impl Message {
    /// A message with the given role and text.
    pub fn new(role: Role, content: String) -> (m: Message)
        ensures
            m.role == role,
            m.content@ == content@,
    {
        Message { role, content }
    }
}

impl Clone for Message {
    fn clone(&self) -> (m: Self)
        ensures
            m.role == self.role,
            m.content@ == self.content@,
    {
        Message { role: self.role, content: self.content.clone() }
    }
}

/// The conversation seen as (role, text) pairs.
pub open spec fn conversation(ms: Seq<Message>) -> Seq<(Role, Seq<char>)> {
    Seq::new(ms.len(), |i: int| (ms[i].role, ms[i].content@))
}

} // verus!
