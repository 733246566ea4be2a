//! Rewriting a session log with the redactions.

use crate::data::session_log_models::{ChatGptItem, ChatMessageItem, SessionLogEntry};
use crate::data::session_log_models::SessionLogEntry::{ChatGptEnum, ChatMessageEnum};
use crate::llm_work::llm_log_processor::{redaction_pairs, LlmLogProcessor};
use crate::text::{chars_of, replace_all, replace_chars, string_of};
use vstd::prelude::*;

verus! {

/// The text after each redaction in turn replaced every occurrence of its
/// original text by its replacement.
pub open spec fn applied(c: Seq<char>, rs: Seq<(Seq<char>, Seq<char>)>) -> Seq<char>
    decreases rs.len(),
{
    if rs.len() == 0 {
        c
    } else {
        replace_all(applied(c, rs.drop_last()), rs.last().0, rs.last().1)
    }
}

/// The message with its content redacted and all else kept.
pub open spec fn message_updated(
    old: ChatMessageItem,
    new: ChatMessageItem,
    rs: Seq<(Seq<char>, Seq<char>)>,
) -> bool {
    &&& new.role == old.role
    &&& new.tool_calls == old.tool_calls
    &&& new.turn == old.turn
    &&& new.content@ == applied(old.content@, rs)
}

/// Each message redacted, in the same order.
pub open spec fn messages_updated(
    old: Seq<ChatMessageItem>,
    new: Seq<ChatMessageItem>,
    rs: Seq<(Seq<char>, Seq<char>)>,
) -> bool {
    &&& new.len() == old.len()
    &&& forall|i: int| 0 <= i < old.len() ==> message_updated(old[i], new[i], rs)
}

/// The chat interaction with the contents of its history and of its
/// response message redacted, all else kept.
pub open spec fn chat_gpt_updated(
    old: ChatGptItem,
    new: ChatGptItem,
    rs: Seq<(Seq<char>, Seq<char>)>,
) -> bool {
    let (o, n) = (old.chat_gpt, new.chat_gpt);
    &&& n.time == o.time
    &&& n.request.functions == o.request.functions
    &&& n.request.model == o.request.model
    &&& n.request.gpt_client == o.request.gpt_client
    &&& messages_updated(o.request.chat_history@, n.request.chat_history@, rs)
    &&& n.response.agent == o.response.agent
    &&& match (o.response.message, n.response.message) {
        (Some(a), Some(b)) => message_updated(a, b, rs),
        (None, None) => true,
        _ => false,
    }
}

/// The entry with its chat texts redacted; entries of other kinds kept.
pub open spec fn entry_updated(
    old: SessionLogEntry,
    new: SessionLogEntry,
    rs: Seq<(Seq<char>, Seq<char>)>,
) -> bool {
    match (old, new) {
        (ChatMessageEnum(a), ChatMessageEnum(b)) => message_updated(a, b, rs),
        (ChatGptEnum(a), ChatGptEnum(b)) => chat_gpt_updated(a, b, rs),
        (ChatMessageEnum(_), _) => false,
        (ChatGptEnum(_), _) => false,
        _ => new == old,
    }
}

/// The log with every entry updated, in the same order.
pub open spec fn log_updated(
    old: Seq<SessionLogEntry>,
    new: Seq<SessionLogEntry>,
    rs: Seq<(Seq<char>, Seq<char>)>,
) -> bool {
    &&& new.len() == old.len()
    &&& forall|i: int| 0 <= i < old.len() ==> entry_updated(old[i], new[i], rs)
}

impl LlmLogProcessor {
    /// Applies the redactions, in order, to a text.
    pub fn upd_field(old: String, redacts: &Vec<(String, String)>) -> (res: String)
        ensures
            res@ == applied(old@, redaction_pairs(redacts@)),
    {
        let mut content = chars_of(old.as_str());
        let mut i: usize = 0;
        while i < redacts.len()
            invariant
                i <= redacts.len(),
                content@ == applied(old@, redaction_pairs(redacts@.take(i as int))),
            decreases redacts.len() - i,
        {
            let from = chars_of(redacts[i].0.as_str());
            let to = chars_of(redacts[i].1.as_str());
            content = replace_chars(content.as_slice(), from.as_slice(), to.as_slice());
            proof {
                let ps = redaction_pairs(redacts@.take(i + 1));
                assert(ps.drop_last() =~= redaction_pairs(redacts@.take(i as int)));
            }
            i += 1;
        }
        assert(redacts@.take(redacts.len() as int) =~= redacts@);
        string_of(content.as_slice())
    }

    /// The message with its content redacted.
    fn upd_message(m: ChatMessageItem, redacts: &Vec<(String, String)>) -> (res: ChatMessageItem)
        ensures
            message_updated(m, res, redaction_pairs(redacts@)),
    {
        let ChatMessageItem { role, content, tool_calls, turn } = m;
        ChatMessageItem { role, content: Self::upd_field(content, redacts), tool_calls, turn }
    }

    /// The messages with their contents redacted.
    fn upd_messages(msgs: Vec<ChatMessageItem>, redacts: &Vec<(String, String)>) -> (res: Vec<
        ChatMessageItem,
    >)
        ensures
            messages_updated(msgs@, res@, redaction_pairs(redacts@)),
    {
        let ghost rs = redaction_pairs(redacts@);
        let ghost orig = msgs@;
        let n = msgs.len();
        let mut msgs = msgs;
        let mut rev: Vec<ChatMessageItem> = Vec::new();
        while msgs.len() > 0
            invariant
                msgs.len() + rev.len() == n,
                n == orig.len(),
                rs == redaction_pairs(redacts@),
                msgs@ == orig.take(msgs.len() as int),
                forall|k: int|
                    0 <= k < rev.len() ==> message_updated(
                        orig[n - 1 - k],
                        #[trigger] rev@[k],
                        rs,
                    ),
            decreases msgs.len(),
        {
            let m = msgs.pop().unwrap();
            assert(m == orig[msgs.len() as int]);
            assert(msgs@ =~= orig.take(msgs.len() as int));
            let ghost before = rev@;
            let ghost at = msgs.len() as int;
            let u = Self::upd_message(m, redacts);
            assert(message_updated(orig[at], u, rs));
            rev.push(u);
            assert forall|k: int| 0 <= k < rev.len() implies message_updated(
                orig[n - 1 - k],
                #[trigger] rev@[k],
                rs,
            ) by {
                if k < before.len() {
                    assert(rev@[k] == before[k]);
                } else {
                    assert(k == before.len());
                    assert(n - 1 - k == at);
                }
            }
        }
        let mut out: Vec<ChatMessageItem> = Vec::new();
        while rev.len() > 0
            invariant
                out.len() + rev.len() == n,
                n == orig.len(),
                rs == redaction_pairs(redacts@),
                forall|k: int|
                    0 <= k < rev.len() ==> message_updated(
                        orig[n - 1 - k],
                        #[trigger] rev@[k],
                        rs,
                    ),
                forall|k: int|
                    0 <= k < out.len() ==> message_updated(orig[k], #[trigger] out@[k], rs),
            decreases rev.len(),
        {
            let ghost before = rev@;
            let m = rev.pop().unwrap();
            assert forall|k: int| 0 <= k < rev.len() implies message_updated(
                orig[n - 1 - k],
                #[trigger] rev@[k],
                rs,
            ) by {
                assert(rev@[k] == before[k]);
            }
            out.push(m);
        }
        out
    }

    /// The entry with its chat texts redacted.
    fn upd_entry(entry: SessionLogEntry, redacts: &Vec<(String, String)>) -> (res:
        SessionLogEntry)
        ensures
            entry_updated(entry, res, redaction_pairs(redacts@)),
    {
        match entry {
            ChatMessageEnum(m) => ChatMessageEnum(Self::upd_message(m, redacts)),
            ChatGptEnum(item) => {
                let ChatGptItem { chat_gpt } = item;
                let mut g = chat_gpt;
                let mut history: Vec<ChatMessageItem> = Vec::new();
                std::mem::swap(&mut history, &mut g.request.chat_history);
                g.request.chat_history = Self::upd_messages(history, redacts);
                let message = match g.response.message {
                    Some(m) => Some(Self::upd_message(m, redacts)),
                    None => None,
                };
                g.response.message = message;
                ChatGptEnum(ChatGptItem { chat_gpt: g })
            },
            other => other,
        }
    }

    /// Rewrites the chat texts of the log with the redactions: the content of
    /// each chat message, of each message of a chat interaction's history
    /// and of its response message.
    pub fn update_log(&self, log: &mut Vec<SessionLogEntry>, redacts: &Vec<(String, String)>)
        ensures
            log_updated(old(log)@, final(log)@, redaction_pairs(redacts@)),
    {
        let ghost rs = redaction_pairs(redacts@);
        let ghost orig = log@;
        let n = log.len();
        let mut rev: Vec<SessionLogEntry> = Vec::new();
        while log.len() > 0
            invariant
                log.len() + rev.len() == n,
                n == orig.len(),
                rs == redaction_pairs(redacts@),
                log@ == orig.take(log.len() as int),
                forall|k: int|
                    0 <= k < rev.len() ==> entry_updated(orig[n - 1 - k], #[trigger] rev@[k], rs),
            decreases log.len(),
        {
            let e = log.pop().unwrap();
            assert(e == orig[log.len() as int]);
            assert(log@ =~= orig.take(log.len() as int));
            let ghost before = rev@;
            let ghost at = log.len() as int;
            let u = Self::upd_entry(e, redacts);
            assert(entry_updated(orig[at], u, rs));
            rev.push(u);
            assert forall|k: int| 0 <= k < rev.len() implies entry_updated(
                orig[n - 1 - k],
                #[trigger] rev@[k],
                rs,
            ) by {
                if k < before.len() {
                    assert(rev@[k] == before[k]);
                } else {
                    assert(k == before.len());
                    assert(n - 1 - k == at);
                }
            }
        }
        while rev.len() > 0
            invariant
                log.len() + rev.len() == n,
                n == orig.len(),
                rs == redaction_pairs(redacts@),
                forall|k: int|
                    0 <= k < rev.len() ==> entry_updated(orig[n - 1 - k], #[trigger] rev@[k], rs),
                forall|k: int| 0 <= k < log.len() ==> entry_updated(orig[k], #[trigger] log@[k], rs),
            decreases rev.len(),
        {
            let ghost before = rev@;
            let e = rev.pop().unwrap();
            assert forall|k: int| 0 <= k < rev.len() implies entry_updated(
                orig[n - 1 - k],
                #[trigger] rev@[k],
                rs,
            ) by {
                assert(rev@[k] == before[k]);
            }
            log.push(e);
        }
    }
}

/// Every chat text of a rewritten log has the redactions applied, whatever
/// the role of its message: a chat message, each message of a chat
/// interaction's history, and the interaction's response message; each
/// keeps its role; entries of other kinds are left as they were.
pub proof fn law_every_chat_text_redacted(
    old: Seq<SessionLogEntry>,
    new: Seq<SessionLogEntry>,
    rs: Seq<(Seq<char>, Seq<char>)>,
    i: int,
)
    requires
        log_updated(old, new, rs),
        0 <= i < old.len(),
    ensures
        new.len() == old.len(),
        old[i] matches ChatMessageEnum(a) ==> (new[i] matches ChatMessageEnum(b) && b.content@
            == applied(a.content@, rs) && b.role == a.role),
        old[i] matches ChatGptEnum(a) ==> (new[i] matches ChatGptEnum(b) && ({
            let (oh, nh) = (a.chat_gpt.request.chat_history@, b.chat_gpt.request.chat_history@);
            &&& nh.len() == oh.len()
            &&& forall|j: int|
                0 <= j < oh.len() ==> (#[trigger] nh[j]).content@ == applied(oh[j].content@, rs)
                    && nh[j].role == oh[j].role
        }) && (a.chat_gpt.response.message matches Some(om) ==> (
        b.chat_gpt.response.message matches Some(nm) && nm.content@ == applied(om.content@, rs)))),
        !(old[i] is ChatMessageEnum) && !(old[i] is ChatGptEnum) ==> new[i] == old[i],
{
    assert(entry_updated(old[i], new[i], rs));
    match old[i] {
        ChatGptEnum(a) => {
            match new[i] {
                ChatGptEnum(b) => {
                    let (oh, nh) = (a.chat_gpt.request.chat_history@, b.chat_gpt.request.chat_history@);
                    assert forall|j: int| 0 <= j < oh.len() implies (#[trigger] nh[j]).content@ == applied(
                        oh[j].content@,
                        rs,
                    ) && nh[j].role == oh[j].role by {
                        assert(message_updated(oh[j], nh[j], rs));
                    }
                },
                _ => {},
            }
        },
        _ => {},
    }
}

} // verus!
