//! The role tag carried by every transcript message.
//!
//! Callers hand roles in as text; only the three spellings `"System"`,
//! `"User"` and `"Assistant"` are accepted. A fourth variant, `Function`,
//! exists in the provider's wire protocol and can be rendered, but is never
//! produced from caller input.

use vstd::prelude::*;

verus! {

/// A message's role in a conversation.
#[derive(Clone, Copy, PartialEq, Eq, Structural, Debug)]
pub enum Role {
    System,
    User,
    Assistant,
    Function,
}

/// The canonical spelling of a role, as accepted on input and as shown in
/// history listings.
pub open spec fn spec_role_name(r: Role) -> Seq<char> {
    match r {
        Role::System => "System"@,
        Role::User => "User"@,
        Role::Assistant => "Assistant"@,
        Role::Function => "Function"@,
    }
}

/// The provider's wire spelling of a role, used when a transcript is
/// rendered as text.
pub open spec fn spec_role_display(r: Role) -> Seq<char> {
    match r {
        Role::System => "system"@,
        Role::User => "user"@,
        Role::Assistant => "assistant"@,
        Role::Function => "function"@,
    }
}

/// The role tag named by `s`, if `s` is one of the three spellings accepted
/// on input.
pub open spec fn spec_parse_role(s: Seq<char>) -> Option<Role> {
    if s == "System"@ {
        Some(Role::System)
    } else if s == "User"@ {
        Some(Role::User)
    } else if s == "Assistant"@ {
        Some(Role::Assistant)
    } else {
        None
    }
}

/// Returns the canonical spelling of `r`.
pub fn role_name(r: Role) -> (s: &'static str)
    ensures
        s@ == spec_role_name(r),
{
    match r {
        Role::System => "System",
        Role::User => "User",
        Role::Assistant => "Assistant",
        Role::Function => "Function",
    }
}

/// Returns the provider's wire spelling of `r`.
pub fn role_display(r: Role) -> (s: &'static str)
    ensures
        s@ == spec_role_display(r),
{
    match r {
        Role::System => "system",
        Role::User => "user",
        Role::Assistant => "assistant",
        Role::Function => "function",
    }
}

/// Parses a role tag, accepting exactly `"System"`, `"User"` and
/// `"Assistant"`.
pub fn parse_role(s: &String) -> (r: Option<Role>)
    ensures
        r == spec_parse_role(s@),
{
    let system: String = "System".to_owned();
    let user: String = "User".to_owned();
    let assistant: String = "Assistant".to_owned();
    if *s == system {
        Some(Role::System)
    } else if *s == user {
        Some(Role::User)
    } else if *s == assistant {
        Some(Role::Assistant)
    } else {
        None
    }
}

} // verus!
