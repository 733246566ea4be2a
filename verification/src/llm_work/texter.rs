//! The plain text of a session log, every chat line kept.

use crate::data::session_log_models::{ChatMessageItem, SessionLogEntry};
use crate::data::session_log_models::SessionLogEntry::ChatMessageEnum;
use crate::llm_work::conv_roles::{user_role, user_role_chars};
use crate::llm_work::get_text_from_session_log::{
    assistant_tag_end, assistant_tag_end_chars, assistant_tag_start, assistant_tag_start_chars,
    labelled, labelled_chars, one_line, tags_in_order, user_tag_end, user_tag_end_chars,
    user_tag_start, user_tag_start_chars,
};
use crate::text::{
    append_chars, chars_of, eq_chars, replace_all, find_chars, find_first, lemma_find_from, is_char,
    replace_chars, slice_chars, string_of, strip, trim_char, trim_chars, white_space,
};
use vstd::prelude::*;

verus! {

/// The label of assistant lines in this text.
pub open spec fn assistant_label() -> Seq<char> {
    seq!['A', 'S', 'S', 'I', 'S', 'T', 'A', 'N', 'T']
}

/// The text between the first `open` and the first `close`, trimmed, when
/// both occur; otherwise the whole content.
pub open spec fn between_tags(c: Seq<char>, open: Seq<char>, close: Seq<char>) -> Option<
    Seq<char>,
> {
    match (find_first(c, open), find_first(c, close)) {
        (Some(s), Some(e)) => Some(strip(c.subrange(s + open.len(), e), white_space())),
        _ => None,
    }
}

/// The line for a user message.
pub open spec fn texter_user_line(c: Seq<char>) -> Seq<char> {
    match between_tags(c, user_tag_start(), user_tag_end()) {
        Some(t) => labelled(user_role(), t),
        None => labelled(user_role(), c),
    }
}

/// The line for any other message; without the opening tag, the content
/// loses its surrounding double quotes.
pub open spec fn texter_assistant_line(c: Seq<char>) -> Seq<char> {
    match between_tags(c, assistant_tag_start(), assistant_tag_end()) {
        Some(t) => labelled(assistant_label(), t),
        None => if find_first(c, assistant_tag_start()) is Some {
            labelled(assistant_label(), c)
        } else {
            labelled(assistant_label(), strip(c, is_char('"')))
        },
    }
}

/// The line a log entry contributes, if it is a chat message.
pub open spec fn texter_line(entry: SessionLogEntry) -> Seq<char> {
    match entry {
        ChatMessageEnum(m) => if m.role@ == user_role() {
            texter_user_line(one_line(m.content@))
        } else {
            texter_assistant_line(one_line(m.content@))
        },
        _ => seq![],
    }
}

/// The lines of all chat messages, joined in order.
pub open spec fn texter_text(log: Seq<SessionLogEntry>) -> Seq<char>
    decreases log.len(),
{
    if log.len() == 0 {
        seq![]
    } else {
        texter_text(log.drop_last()) + texter_line(log.last())
    }
}

fn assistant_label_chars() -> (res: Vec<char>)
    ensures
        res@ == assistant_label(),
{
    let v = vec!['A', 'S', 'S', 'I', 'S', 'T', 'A', 'N', 'T'];
    assert(v@ =~= assistant_label());
    v
}

/// `between_tags` on characters.
fn between_tags_chars(c: &[char], open: &[char], close: &[char]) -> (res: Option<Vec<char>>)
    requires
        tags_in_order(c@, open@, close@),
    ensures
        match between_tags(c@, open@, close@) {
            Some(t) => res == Some(res->0) && res->0@ == t,
            None => res is None,
        },
{
    proof {
        lemma_find_from(c@, open@, 0);
        lemma_find_from(c@, close@, 0);
    }
    match (find_chars(c, open), find_chars(c, close)) {
        (Some(s), Some(e)) => {
            let inner = slice_chars(c, s + open.len(), e);
            Some(trim_chars(inner.as_slice()))
        },
        _ => None,
    }
}

/// Appends the line of a user message.
fn user_content(chat_log: &mut Vec<char>, content: &[char])
    requires
        tags_in_order(content@, user_tag_start(), user_tag_end()),
    ensures
        final(chat_log)@ == old(chat_log)@ + texter_user_line(content@),
{
    let role = user_role_chars();
    let open = user_tag_start_chars();
    let close = user_tag_end_chars();
    let line = match between_tags_chars(content, open.as_slice(), close.as_slice()) {
        Some(t) => labelled_chars(role.as_slice(), t.as_slice()),
        None => labelled_chars(role.as_slice(), content),
    };
    append_chars(chat_log, line.as_slice());
}

/// Appends the line of any other message.
fn assistant_content(chat_log: &mut Vec<char>, content: &[char])
    requires
        tags_in_order(content@, assistant_tag_start(), assistant_tag_end()),
    ensures
        final(chat_log)@ == old(chat_log)@ + texter_assistant_line(content@),
{
    let label = assistant_label_chars();
    let open = assistant_tag_start_chars();
    let close = assistant_tag_end_chars();
    let line = match between_tags_chars(content, open.as_slice(), close.as_slice()) {
        Some(t) => labelled_chars(label.as_slice(), t.as_slice()),
        None => if find_chars(content, open.as_slice()).is_some() {
            labelled_chars(label.as_slice(), content)
        } else {
            let t = trim_char(content, '"');
            labelled_chars(label.as_slice(), t.as_slice())
        },
    };
    append_chars(chat_log, line.as_slice());
}

/// The plain text of the session log: one line per chat message,
/// `user: ...` or `ASSISTANT: ...`, repeats kept.
pub fn texter(session_items: Vec<SessionLogEntry>) -> (res: String)
    requires
        crate::llm_work::get_text_from_session_log::log_extractable(session_items@),
    ensures
        res@ == texter_text(session_items@),
{
    let mut chat_log: Vec<char> = Vec::new();
    let mut i: usize = 0;
    while i < session_items.len()
        invariant
            i <= session_items.len(),
            crate::llm_work::get_text_from_session_log::log_extractable(session_items@),
            chat_log@ == texter_text(session_items@.take(i as int)),
        decreases session_items.len() - i,
    {
        let ghost next = session_items@.take(i + 1);
        assert(next.drop_last() =~= session_items@.take(i as int));
        assert(crate::llm_work::get_text_from_session_log::entry_extractable(
            session_items@[i as int],
        ));
        if let ChatMessageEnum(chat_msg) = &session_items[i] {
            let raw = chars_of(chat_msg.content.as_str());
            let nl = vec!['\n'];
            let sp = vec![' '];
            assert(nl@ =~= seq!['\n']);
            assert(sp@ =~= seq![' ']);
            let content = replace_chars(raw.as_slice(), nl.as_slice(), sp.as_slice());
            let role = chars_of(chat_msg.role.as_str());
            if eq_chars(role.as_slice(), user_role_chars().as_slice()) {
                user_content(&mut chat_log, content.as_slice());
            } else {
                assistant_content(&mut chat_log, content.as_slice());
            }
        } else {
            assert(texter_line(session_items@[i as int]) =~= Seq::<char>::empty());
            assert(chat_log@ + Seq::<char>::empty() =~= chat_log@);
        }
        i += 1;
    }
    assert(session_items@.take(session_items.len() as int) =~= session_items@);
    string_of(chat_log.as_slice())
}

/// The text between two tags that occur in order holds no newline when
/// the content holds none.
proof fn lemma_between_tags_no_newline(c: Seq<char>, open: Seq<char>, close: Seq<char>)
    requires
        !c.contains('\n'),
        tags_in_order(c, open, close),
    ensures
        between_tags(c, open, close) matches Some(t) ==> !t.contains('\n'),
{
    if between_tags(c, open, close) is Some {
        crate::llm_work::get_text_from_session_log::lemma_between_absent(c, open, close, white_space(), '\n');
    }
}

/// Every chat message, whatever its role, gives exactly one line of the
/// rendered text: it ends with a newline, holds no other newline, and
/// starts with `user: ` for a user message and `ASSISTANT: ` for any other
/// role (assistant, system, tool, ...).
pub proof fn law_texter_line_is_one_line(m: ChatMessageItem)
    requires
        crate::llm_work::get_text_from_session_log::entry_extractable(ChatMessageEnum(m)),
    ensures
        texter_line(ChatMessageEnum(m)).len() > 0,
        texter_line(ChatMessageEnum(m)).last() == '\n',
        !texter_line(ChatMessageEnum(m)).drop_last().contains('\n'),
        m.role@ == seq!['u', 's', 'e', 'r'] ==> seq!['u', 's', 'e', 'r', ':', ' '].is_prefix_of(
            texter_line(ChatMessageEnum(m)),
        ),
        m.role@ != seq!['u', 's', 'e', 'r'] ==> seq!['A', 'S', 'S', 'I', 'S', 'T', 'A', 'N', 'T', ':', ' '].is_prefix_of(
            texter_line(ChatMessageEnum(m)),
        ),
        m.role@ == seq!['u', 's', 'e', 'r'] && !m.content@.contains('<') ==> texter_line(
            ChatMessageEnum(m),
        ) == seq!['u', 's', 'e', 'r', ':', ' '] + replace_all(m.content@, seq!['\n'], seq![' '])
            + seq!['\n'],
{
    let c = one_line(m.content@);
    crate::llm_work::get_text_from_session_log::lemma_one_line_has_no_newline(m.content@);
    let ur = user_role();
    let al = assistant_label();
    assert(!ur.contains('\n')) by {
        if ur.contains('\n') {
            let i = choose|i: int| 0 <= i < 4 && ur[i] == '\n';
            assert(i == 0 || i == 1 || i == 2 || i == 3);
        }
    }
    assert(!al.contains('\n')) by {
        if al.contains('\n') {
            let i = choose|i: int| 0 <= i < 9 && al[i] == '\n';
            assert(0 <= i < 9);
        }
    }
    if m.role@ == user_role() {
        if !m.content@.contains('<') {
            crate::llm_work::get_text_from_session_log::lemma_no_tag_found(m.content@, user_tag_start());
        }
        lemma_between_tags_no_newline(c, user_tag_start(), user_tag_end());
        let t = match between_tags(c, user_tag_start(), user_tag_end()) {
            Some(t) => t,
            None => c,
        };
        assert(texter_user_line(c) == labelled(ur, t));
        crate::llm_work::get_text_from_session_log::lemma_line_shape(ur, t);
        assert(ur + seq![':', ' '] =~= seq!['u', 's', 'e', 'r', ':', ' ']);
    } else {
        lemma_between_tags_no_newline(c, assistant_tag_start(), assistant_tag_end());
        crate::text::lemma_strip_absent(c, is_char('"'), '\n');
        let t = match between_tags(c, assistant_tag_start(), assistant_tag_end()) {
            Some(t) => t,
            None => if find_first(c, assistant_tag_start()) is Some {
                c
            } else {
                strip(c, is_char('"'))
            },
        };
        assert(texter_assistant_line(c) == labelled(al, t));
        crate::llm_work::get_text_from_session_log::lemma_line_shape(al, t);
        assert(al + seq![':', ' '] =~= seq!['A', 'S', 'S', 'I', 'S', 'T', 'A', 'N', 'T', ':', ' ']);
    }
}

} // verus!
