//! The roles of the participants of a chat.

use vstd::prelude::*;

verus! {

/// The role of the person chatting.
pub const USER: &'static str = "user";

/// The role of the assistant answering.
pub const ASSISTANT: &'static str = "assistant";

/// The characters of `USER`.
pub open spec fn user_role() -> Seq<char> {
    seq!['u', 's', 'e', 'r']
}

/// The characters of `ASSISTANT`.
pub open spec fn assistant_role() -> Seq<char> {
    seq!['a', 's', 's', 'i', 's', 't', 'a', 'n', 't']
}

/// `USER` as characters.
pub fn user_role_chars() -> (res: Vec<char>)
    ensures
        res@ == user_role(),
{
    let v = vec!['u', 's', 'e', 'r'];
    assert(v@ =~= user_role());
    v
}

/// `ASSISTANT` as characters.
pub fn assistant_role_chars() -> (res: Vec<char>)
    ensures
        res@ == assistant_role(),
{
    let v = vec!['a', 's', 's', 'i', 's', 't', 'a', 'n', 't'];
    assert(v@ =~= assistant_role());
    v
}

} // verus!
