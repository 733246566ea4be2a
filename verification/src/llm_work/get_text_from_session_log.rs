//! The plain text of a session log that is sent to the language model.

use crate::data::session_log_models::{ChatMessageItem, SessionLogEntry};
use crate::data::session_log_models::SessionLogEntry::ChatMessageEnum;
use crate::llm_work::conv_roles::{assistant_role, assistant_role_chars, user_role, user_role_chars};
use crate::text::{
    append_chars, chars_of, eq_chars, find_chars, find_first, lemma_find_from, is_char, replace_all, replace_chars,
    slice_chars, string_of, strip, trim_char, trim_chars, white_space,
};
pub use vstd::hash_set::StringHashSet;
use vstd::prelude::*;
use vstd::string::*;

verus! {

/// The tag that opens the user's input.
pub open spec fn user_tag_start() -> Seq<char> {
    seq!['<', 'u', 's', 'e', 'r', '_', 'i', 'n', 'p', 'u', 't', '>']
}

/// The tag that closes the user's input.
pub open spec fn user_tag_end() -> Seq<char> {
    seq!['<', '/', 'u', 's', 'e', 'r', '_', 'i', 'n', 'p', 'u', 't', '>']
}

/// The tag that opens the assistant's response.
pub open spec fn assistant_tag_start() -> Seq<char> {
    seq!['<', 'a', 's', 's', 'i', 's', 't', 'a', 'n', 't', '_', 'r', 'e', 's', 'p', 'o', 'n', 's', 'e', '>']
}

/// The tag that closes the assistant's response.
pub open spec fn assistant_tag_end() -> Seq<char> {
    seq!['<', '/', 'a', 's', 's', 'i', 's', 't', 'a', 'n', 't', '_', 'r', 'e', 's', 'p', 'o', 'n', 's', 'e', '>']
}

/// The content with each newline turned into a space.
pub open spec fn one_line(c: Seq<char>) -> Seq<char> {
    replace_all(c, seq!['\n'], seq![' '])
}

/// `role: text` and a newline.
pub open spec fn labelled(role: Seq<char>, text: Seq<char>) -> Seq<char> {
    role + seq![':', ' '] + text + seq!['\n']
}

/// The line for a user message: the text between the input tags, trimmed;
/// without the closing tag, the content with the opening tags removed;
/// without tags, the content.
pub open spec fn user_line(c: Seq<char>) -> Seq<char> {
    match find_first(c, user_tag_start()) {
        Some(s) => match find_first(c, user_tag_end()) {
            Some(e) => labelled(
                user_role(),
                strip(c.subrange(s + user_tag_start().len(), e), white_space()),
            ),
            None => labelled(user_role(), replace_all(c, user_tag_start(), seq![])),
        },
        None => labelled(user_role(), c),
    }
}

/// The line for any other message: the text between the response tags,
/// trimmed; without the closing tag, the content with the opening tags
/// removed; without tags, the content without surrounding double quotes.
pub open spec fn assistant_line(c: Seq<char>) -> Seq<char> {
    match find_first(c, assistant_tag_start()) {
        Some(s) => match find_first(c, assistant_tag_end()) {
            Some(e) => labelled(
                assistant_role(),
                strip(c.subrange(s + assistant_tag_start().len(), e), white_space()),
            ),
            None => labelled(assistant_role(), replace_all(c, assistant_tag_start(), seq![])),
        },
        None => labelled(assistant_role(), strip(c, is_char('"'))),
    }
}

/// When both tags occur, the first closing tag comes after the first
/// opening tag ends; otherwise the text between them cannot be cut out.
pub open spec fn tags_in_order(c: Seq<char>, open: Seq<char>, close: Seq<char>) -> bool {
    match (find_first(c, open), find_first(c, close)) {
        (Some(s), Some(e)) => s + open.len() <= e,
        _ => true,
    }
}

/// The line a log entry contributes, if it is a chat message.
pub open spec fn chat_line(entry: SessionLogEntry) -> Option<Seq<char>> {
    match entry {
        ChatMessageEnum(m) => Some(
            if m.role@ == user_role() {
                user_line(one_line(m.content@))
            } else {
                assistant_line(one_line(m.content@))
            },
        ),
        _ => None,
    }
}

/// The text of a chat message can be cut out of its tags.
pub open spec fn entry_extractable(entry: SessionLogEntry) -> bool {
    match entry {
        ChatMessageEnum(m) => if m.role@ == user_role() {
            tags_in_order(one_line(m.content@), user_tag_start(), user_tag_end())
        } else {
            tags_in_order(one_line(m.content@), assistant_tag_start(), assistant_tag_end())
        },
        _ => true,
    }
}

/// Every chat message of the log can be cut out of its tags.
pub open spec fn log_extractable(log: Seq<SessionLogEntry>) -> bool {
    forall|i: int| 0 <= i < log.len() ==> #[trigger] entry_extractable(log[i])
}

/// The lines of the chat messages of the log, in order.
pub open spec fn chat_lines(log: Seq<SessionLogEntry>) -> Seq<Seq<char>>
    decreases log.len(),
{
    if log.len() == 0 {
        seq![]
    } else {
        match chat_line(log.last()) {
            Some(l) => chat_lines(log.drop_last()).push(l),
            None => chat_lines(log.drop_last()),
        }
    }
}

/// The lines joined, each one only where it first occurs.
pub open spec fn distinct_concat(lines: Seq<Seq<char>>) -> Seq<char>
    decreases lines.len(),
{
    if lines.len() == 0 {
        seq![]
    } else if lines.drop_last().contains(lines.last()) {
        distinct_concat(lines.drop_last())
    } else {
        distinct_concat(lines.drop_last()) + lines.last()
    }
}

/// The plain text of a log: its distinct chat lines in order.
pub open spec fn session_text(log: Seq<SessionLogEntry>) -> Seq<char> {
    distinct_concat(chat_lines(log))
}

/// The tag that opens the user's input.
pub(crate) fn user_tag_start_chars() -> (res: Vec<char>)
    ensures
        res@ == user_tag_start(),
{
    let v = vec!['<', 'u', 's', 'e', 'r', '_', 'i', 'n', 'p', 'u', 't', '>'];
    assert(v@ =~= user_tag_start());
    v
}

/// The tag that closes the user's input.
pub(crate) fn user_tag_end_chars() -> (res: Vec<char>)
    ensures
        res@ == user_tag_end(),
{
    let v = vec!['<', '/', 'u', 's', 'e', 'r', '_', 'i', 'n', 'p', 'u', 't', '>'];
    assert(v@ =~= user_tag_end());
    v
}

/// The tag that opens the assistant's response.
pub(crate) fn assistant_tag_start_chars() -> (res: Vec<char>)
    ensures
        res@ == assistant_tag_start(),
{
    let v = vec!['<', 'a', 's', 's', 'i', 's', 't', 'a', 'n', 't', '_', 'r', 'e', 's', 'p', 'o', 'n', 's', 'e', '>'];
    assert(v@ =~= assistant_tag_start());
    v
}

/// The tag that closes the assistant's response.
pub(crate) fn assistant_tag_end_chars() -> (res: Vec<char>)
    ensures
        res@ == assistant_tag_end(),
{
    let v = vec!['<', '/', 'a', 's', 's', 'i', 's', 't', 'a', 'n', 't', '_', 'r', 'e', 's', 'p', 'o', 'n', 's', 'e', '>'];
    assert(v@ =~= assistant_tag_end());
    v
}

/// The text between the first `open` and the first `close`, trimmed; the
/// content without `open` when `close` is missing; `None` without `open`.
pub(crate) fn tagged_text(c: &[char], open: &[char], close: &[char]) -> (res: Option<Vec<char>>)
    requires
        tags_in_order(c@, open@, close@),
    ensures
        match find_first(c@, open@) {
            Some(s) => match find_first(c@, close@) {
                Some(e) => res == Some(res->0) && res->0@ == strip(
                    c@.subrange(s + open@.len(), e),
                    white_space(),
                ),
                None => res == Some(res->0) && res->0@ == replace_all(c@, open@, seq![]),
            },
            None => res is None,
        },
{
    proof {
        lemma_find_from(c@, open@, 0);
        lemma_find_from(c@, close@, 0);
    }
    match find_chars(c, open) {
        Some(s) => match find_chars(c, close) {
            Some(e) => {
                let inner = slice_chars(c, s + open.len(), e);
                Some(trim_chars(inner.as_slice()))
            },
            None => {
                let empty: Vec<char> = Vec::new();
                Some(replace_chars(c, open, empty.as_slice()))
            },
        },
        None => None,
    }
}

/// `role: text` and a newline, as characters.
pub(crate) fn labelled_chars(role: &[char], text: &[char]) -> (res: Vec<char>)
    ensures
        res@ == labelled(role@, text@),
{
    let mut out: Vec<char> = Vec::new();
    append_chars(&mut out, role);
    out.push(':');
    out.push(' ');
    append_chars(&mut out, text);
    out.push('\n');
    assert(out@ =~= labelled(role@, text@));
    out
}

/// The line for a user message.
fn user_line_chars(c: &[char]) -> (res: Vec<char>)
    requires
        tags_in_order(c@, user_tag_start(), user_tag_end()),
    ensures
        res@ == user_line(c@),
{
    let role = user_role_chars();
    let open = user_tag_start_chars();
    let close = user_tag_end_chars();
    match tagged_text(c, open.as_slice(), close.as_slice()) {
        Some(t) => labelled_chars(role.as_slice(), t.as_slice()),
        None => labelled_chars(role.as_slice(), c),
    }
}

/// The line for any other message.
fn assistant_line_chars(c: &[char]) -> (res: Vec<char>)
    requires
        tags_in_order(c@, assistant_tag_start(), assistant_tag_end()),
    ensures
        res@ == assistant_line(c@),
{
    let role = assistant_role_chars();
    let open = assistant_tag_start_chars();
    let close = assistant_tag_end_chars();
    match tagged_text(c, open.as_slice(), close.as_slice()) {
        Some(t) => labelled_chars(role.as_slice(), t.as_slice()),
        None => {
            let t = trim_char(c, '"');
            labelled_chars(role.as_slice(), t.as_slice())
        },
    }
}

/// Adds `src` to the chat text unless it was added before; the set of
/// lines already added keeps the text free of repeats.
pub fn add_txt(history: &mut StringHashSet, dst: &mut String, src: &str)
    ensures
        old(history)@.contains(src@) ==> final(history)@ == old(history)@ && final(dst)@ == old(
            dst,
        )@,
        !old(history)@.contains(src@) ==> final(history)@ == old(history)@.insert(src@)
            && final(dst)@ == old(dst)@ + src@,
{
    if !history.contains(src) {
        history.insert(String::from_str(src));
        dst.append(src);
    }
}

/// Adds the line of a user message.
fn user_content(text_set: &mut StringHashSet, chat_log: &mut String, content: &[char])
    requires
        tags_in_order(content@, user_tag_start(), user_tag_end()),
    ensures
        old(text_set)@.contains(user_line(content@)) ==> final(text_set)@ == old(text_set)@
            && final(chat_log)@ == old(chat_log)@,
        !old(text_set)@.contains(user_line(content@)) ==> final(text_set)@ == old(
            text_set,
        )@.insert(user_line(content@)) && final(chat_log)@ == old(chat_log)@ + user_line(
            content@,
        ),
{
    let line = string_of(user_line_chars(content).as_slice());
    add_txt(text_set, chat_log, line.as_str());
}

/// Adds the line of any other message.
fn assistant_content(text_set: &mut StringHashSet, chat_log: &mut String, content: &[char])
    requires
        tags_in_order(content@, assistant_tag_start(), assistant_tag_end()),
    ensures
        old(text_set)@.contains(assistant_line(content@)) ==> final(text_set)@ == old(
            text_set,
        )@ && final(chat_log)@ == old(chat_log)@,
        !old(text_set)@.contains(assistant_line(content@)) ==> final(text_set)@ == old(
            text_set,
        )@.insert(assistant_line(content@)) && final(chat_log)@ == old(chat_log)@
            + assistant_line(content@),
{
    let line = string_of(assistant_line_chars(content).as_slice());
    add_txt(text_set, chat_log, line.as_str());
}

/// Whether the text of every chat message of the log can be cut out of its
/// tags.
pub fn is_extractable(session_items: &Vec<SessionLogEntry>) -> (res: bool)
    ensures
        res == log_extractable(session_items@),
{
    let mut i: usize = 0;
    while i < session_items.len()
        invariant
            i <= session_items.len(),
            forall|t: int| 0 <= t < i ==> #[trigger] entry_extractable(session_items@[t]),
        decreases session_items.len() - i,
    {
        if let ChatMessageEnum(chat_msg) = &session_items[i] {
            let raw = chars_of(chat_msg.content.as_str());
            let nl = vec!['\n'];
            let sp = vec![' '];
            assert(nl@ =~= seq!['\n']);
            assert(sp@ =~= seq![' ']);
            let content = replace_chars(raw.as_slice(), nl.as_slice(), sp.as_slice());
            let role = chars_of(chat_msg.role.as_str());
            let ok = if eq_chars(role.as_slice(), user_role_chars().as_slice()) {
                let open = user_tag_start_chars();
                let close = user_tag_end_chars();
                tags_ordered(content.as_slice(), open.as_slice(), close.as_slice())
            } else {
                let open = assistant_tag_start_chars();
                let close = assistant_tag_end_chars();
                tags_ordered(content.as_slice(), open.as_slice(), close.as_slice())
            };
            if !ok {
                assert(!entry_extractable(session_items@[i as int]));
                return false;
            }
        }
        i += 1;
    }
    true
}

/// Whether `tags_in_order` holds.
pub(crate) fn tags_ordered(c: &[char], open: &[char], close: &[char]) -> (res: bool)
    ensures
        res == tags_in_order(c@, open@, close@),
{
    match (find_chars(c, open), find_chars(c, close)) {
        (Some(s), Some(e)) => e >= s && e - s >= open.len(),
        _ => true,
    }
}

/// Extracts the plain text of the session log for the language model:
/// one line per chat message, `user: ...` or `assistant: ...`, each
/// distinct line once.
pub fn get_text_from_session_log(session_items: &Vec<SessionLogEntry>) -> (res: String)
    requires
        log_extractable(session_items@),
    ensures
        res@ == session_text(session_items@),
{
    let mut chat_log = String::new();
    let mut text_set = StringHashSet::new();
    let mut i: usize = 0;
    while i < session_items.len()
        invariant
            i <= session_items.len(),
            log_extractable(session_items@),
            text_set@ == chat_lines(session_items@.take(i as int)).to_set(),
            chat_log@ == distinct_concat(chat_lines(session_items@.take(i as int))),
        decreases session_items.len() - i,
    {
        let ghost prefix = session_items@.take(i as int);
        let ghost next = session_items@.take(i + 1);
        assert(next.drop_last() =~= prefix);
        assert(next.last() == session_items@[i as int]);
        assert(entry_extractable(session_items@[i as int]));
        if let ChatMessageEnum(chat_msg) = &session_items[i] {
            let raw = chars_of(chat_msg.content.as_str());
            let nl = vec!['\n'];
            let sp = vec![' '];
            assert(nl@ =~= seq!['\n']);
            assert(sp@ =~= seq![' ']);
            let content = replace_chars(raw.as_slice(), nl.as_slice(), sp.as_slice());
            let role = chars_of(chat_msg.role.as_str());
            if eq_chars(role.as_slice(), user_role_chars().as_slice()) {
                user_content(&mut text_set, &mut chat_log, content.as_slice());
            } else {
                assistant_content(&mut text_set, &mut chat_log, content.as_slice());
            }
            proof {
                broadcast use vstd::seq_lib::lemma_seq_contains_after_push;

                let l = chat_line(session_items@[i as int])->0;
                let ls = chat_lines(prefix);
                assert(chat_lines(next) == ls.push(l));
                assert(ls.push(l).drop_last() =~= ls);
                assert(ls.to_set().contains(l) == ls.contains(l));
                assert(ls.push(l).to_set() =~= ls.to_set().insert(l));
            }
        }
        i += 1;
    }
    assert(session_items@.take(session_items.len() as int) =~= session_items@);
    chat_log
}

/// A chat message whose line the text already holds adds nothing to it:
/// each line is sent to the model once.
pub proof fn law_repeated_line_adds_nothing(log: Seq<SessionLogEntry>, entry: SessionLogEntry)
    requires
        chat_line(entry) matches Some(l) && chat_lines(log).contains(l),
    ensures
        session_text(log.push(entry)) == session_text(log),
{
    assert(log.push(entry).drop_last() =~= log);
    assert(log.push(entry).last() == entry);
    let l = chat_line(entry)->0;
    assert(chat_lines(log.push(entry)) == chat_lines(log).push(l));
    assert(chat_lines(log).push(l).drop_last() =~= chat_lines(log));
}

/// Entries that are not chat messages add nothing to the text.
pub proof fn law_other_entries_add_nothing(log: Seq<SessionLogEntry>, entry: SessionLogEntry)
    requires
        chat_line(entry) is None,
    ensures
        session_text(log.push(entry)) == session_text(log),
{
    assert(log.push(entry).drop_last() =~= log);
    assert(log.push(entry).last() == entry);
}

/// A line `label: text` ended by a newline, with no newline in the label
/// or the text, is a single line that starts with `label: `.
pub proof fn lemma_line_shape(label: Seq<char>, t: Seq<char>)
    requires
        !label.contains('\n'),
        !t.contains('\n'),
    ensures
        (label + seq![':', ' '] + t + seq!['\n']).last() == '\n',
        !(label + seq![':', ' '] + t + seq!['\n']).drop_last().contains('\n'),
        (label + seq![':', ' ']).is_prefix_of(label + seq![':', ' '] + t + seq!['\n']),
{
    let sep = seq![':', ' '];
    assert(!sep.contains('\n')) by {
        if sep.contains('\n') {
            let i = choose|i: int| 0 <= i < 2 && sep[i] == '\n';
            assert(i == 0 || i == 1);
        }
    }
    crate::text::lemma_concat_absent(label, sep, '\n');
    crate::text::lemma_concat_absent(label + sep, t, '\n');
    assert((label + sep + t + seq!['\n']).drop_last() =~= label + sep + t);
    assert((label + sep + t + seq!['\n']).subrange(0, (label + sep).len() as int) =~= label + sep);
}

/// The text between two tags in order, trimmed, holds no character that the
/// whole text lacks.
pub proof fn lemma_between_absent(c: Seq<char>, open: Seq<char>, close: Seq<char>, p: spec_fn(char) -> bool, x: char)
    requires
        !c.contains(x),
        tags_in_order(c, open, close),
        find_first(c, open) is Some,
        find_first(c, close) is Some,
    ensures
        !strip(c.subrange(find_first(c, open)->0 + open.len(), find_first(c, close)->0), p).contains(x),
{
    lemma_find_from(c, open, 0);
    lemma_find_from(c, close, 0);
    let st = find_first(c, open)->0;
    let e = find_first(c, close)->0;
    crate::text::lemma_subrange_absent(c, st + open.len(), e, x);
    crate::text::lemma_strip_absent(c.subrange(st + open.len(), e), p, x);
}

/// A content without `<` holds no tag once its newlines become spaces.
pub proof fn lemma_no_tag_found(c: Seq<char>, tag: Seq<char>)
    requires
        !c.contains('<'),
        tag.len() > 0,
        tag[0] == '<',
    ensures
        find_first(one_line(c), tag) is None,
{
    let sp = seq![' '];
    assert(!sp.contains('<')) by {
        if sp.contains('<') {
            let i = choose|i: int| 0 <= i < 1 && sp[i] == '<';
        }
    }
    crate::text::lemma_replace_keeps_absent(c, seq!['\n'], sp, '<');
    let o = one_line(c);
    lemma_find_from(o, tag, 0);
    if find_first(o, tag) is Some {
        let k = find_first(o, tag)->0;
        assert(o.subrange(k, k + tag.len())[0] == '<');
        assert(o[k] == '<');
    }
}

/// The content with its newlines turned into spaces has no newline.
pub proof fn lemma_one_line_has_no_newline(c: Seq<char>)
    ensures
        !one_line(c).contains('\n'),
{
    let sp = seq![' '];
    assert(!sp.contains('\n')) by {
        if sp.contains('\n') {
            let i = choose|i: int| 0 <= i < 1 && sp[i] == '\n';
        }
    }
    crate::text::lemma_replace_char_removes(c, '\n', sp);
}

/// Every chat message, whatever its role, gives exactly one line of the
/// text: it ends with a newline, holds no other newline (newlines of the
/// content become spaces), and starts with `user: ` for a user message and
/// `assistant: ` for any other.
pub proof fn law_chat_line_is_one_line(m: ChatMessageItem)
    requires
        entry_extractable(ChatMessageEnum(m)),
    ensures
        chat_line(ChatMessageEnum(m)) matches Some(l) && l.len() > 0 && l.last() == '\n'
            && !l.drop_last().contains('\n') && (if m.role@ == seq!['u', 's', 'e', 'r'] {
            seq!['u', 's', 'e', 'r', ':', ' '].is_prefix_of(l)
        } else {
            seq!['a', 's', 's', 'i', 's', 't', 'a', 'n', 't', ':', ' '].is_prefix_of(l)
        }),
        m.role@ == seq!['u', 's', 'e', 'r'] && !m.content@.contains('<') ==> chat_line(
            ChatMessageEnum(m),
        ) == Some(seq!['u', 's', 'e', 'r', ':', ' '] + replace_all(m.content@, seq!['\n'], seq![' '])
            + seq!['\n']),
{
    let c = one_line(m.content@);
    lemma_one_line_has_no_newline(m.content@);
    let ur = user_role();
    let ar = assistant_role();
    assert(!ur.contains('\n')) by {
        if ur.contains('\n') {
            let i = choose|i: int| 0 <= i < 4 && ur[i] == '\n';
            assert(i == 0 || i == 1 || i == 2 || i == 3);
        }
    }
    assert(!ar.contains('\n')) by {
        if ar.contains('\n') {
            let i = choose|i: int| 0 <= i < 9 && ar[i] == '\n';
            assert(0 <= i < 9);
        }
    }
    let empty = Seq::<char>::empty();
    assert(!empty.contains('\n'));
    if m.role@ == user_role() {
        if !m.content@.contains('<') {
            lemma_no_tag_found(m.content@, user_tag_start());
        }
        let t = match find_first(c, user_tag_start()) {
            Some(st) => match find_first(c, user_tag_end()) {
                Some(e) => {
                    lemma_between_absent(c, user_tag_start(), user_tag_end(), white_space(), '\n');
                    strip(c.subrange(st + user_tag_start().len(), e), white_space())
                },
                None => {
                    crate::text::lemma_replace_keeps_absent(c, user_tag_start(), empty, '\n');
                    replace_all(c, user_tag_start(), seq![])
                },
            },
            None => c,
        };
        assert(user_line(c) == labelled(ur, t));
        lemma_line_shape(ur, t);
        assert(ur + seq![':', ' '] =~= seq!['u', 's', 'e', 'r', ':', ' ']);
    } else {
        let t = match find_first(c, assistant_tag_start()) {
            Some(st) => match find_first(c, assistant_tag_end()) {
                Some(e) => {
                    lemma_between_absent(c, assistant_tag_start(), assistant_tag_end(), white_space(), '\n');
                    strip(c.subrange(st + assistant_tag_start().len(), e), white_space())
                },
                None => {
                    crate::text::lemma_replace_keeps_absent(c, assistant_tag_start(), empty, '\n');
                    replace_all(c, assistant_tag_start(), seq![])
                },
            },
            None => {
                crate::text::lemma_strip_absent(c, is_char('"'), '\n');
                strip(c, is_char('"'))
            },
        };
        assert(assistant_line(c) == labelled(ar, t));
        lemma_line_shape(ar, t);
        assert(ar + seq![':', ' '] =~= seq!['a', 's', 's', 'i', 's', 't', 'a', 'n', 't', ':', ' ']);
    }
}

} // verus!
