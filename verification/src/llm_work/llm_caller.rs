//! The parts of an LLM request that the configuration decides.

use crate::config::env_vars::Cfg;
use crate::config::secret_string::SecretString;
use crate::json::{
    json_array, keys_distinct, json_number, json_object, json_string, json_tree, tree_get, JsonTree,
};
use vstd::prelude::*;
use vstd::string::*;

verus! {

/// `Bearer ` followed by the token.
pub open spec fn bearer_of(token: Seq<char>) -> Seq<char> {
    seq!['B', 'e', 'a', 'r', 'e', 'r', ' '] + token
}

/// Formats the bearer token with its prefix.
pub fn add_bearer(token: Option<&String>) -> (res: Option<String>)
    ensures
        match token {
            Some(t) => res matches Some(r) && r@ == bearer_of(t@),
            None => res is None,
        },
{
    match token {
        Some(t) => {
            let prefix = "Bearer ";
            proof {
                reveal_strlit("Bearer ");
            }
            let mut r = String::from_str(prefix);
            r.append(t.as_str());
            Some(r)
        },
        None => None,
    }
}

/// A header with its value, when both are configured.
pub open spec fn header_pair(h: Option<String>, v: Option<Seq<char>>) -> Seq<(Seq<char>, Seq<char>)> {
    match (h, v) {
        (Some(h), Some(v)) => seq![(h@, v)],
        _ => seq![],
    }
}

/// The text of an optional plain setting.
pub open spec fn opt_text(v: Option<String>) -> Option<Seq<char>> {
    match v {
        Some(s) => Some(s@),
        None => None,
    }
}

/// The text of an optional secret setting.
pub open spec fn opt_secret(v: Option<SecretString>) -> Option<Seq<char>> {
    match v {
        Some(s) => Some(s.value@),
        None => None,
    }
}

/// The gateway headers of a request, in the order in which they are set:
/// the AWS region, the provider, the secret access key, the session token
/// and the access key id, each when both its header name and its value are
/// configured.
pub open spec fn portkey_headers(cfg: Cfg) -> Seq<(Seq<char>, Seq<char>)> {
    header_pair(cfg.portkey_aws_region_header, opt_text(cfg.aws_region)) + header_pair(
        cfg.portkey_provider_header,
        opt_text(cfg.portkey_provider_value),
    ) + header_pair(
        cfg.portkey_aws_secret_access_key_header,
        opt_secret(cfg.aws_secret_access_key),
    ) + header_pair(cfg.portkey_aws_access_token_header, opt_secret(cfg.aws_access_token))
        + header_pair(cfg.portkey_aws_access_key_id_header, opt_secret(cfg.aws_access_key_id))
}

/// The headers as texts.
pub open spec fn header_texts(v: Seq<(String, String)>) -> Seq<(Seq<char>, Seq<char>)> {
    v.map_values(|p: (String, String)| (p.0@, p.1@))
}

/// Appends the header when both its name and value are set.
fn push_header(out: &mut Vec<(String, String)>, h: &Option<String>, v: Option<String>)
    ensures
        header_texts(final(out)@) == header_texts(old(out)@) + header_pair(*h, opt_text(v)),
{
    match (h, v) {
        (Some(name), Some(value)) => {
            let ghost before = header_texts(out@);
            let ghost pair = (name@, value@);
            out.push((name.clone(), value));
            assert(header_texts(out@) =~= before + seq![pair]);
        },
        _ => {
            assert(header_texts(out@) =~= header_texts(out@) + Seq::<(Seq<char>, Seq<char>)>::empty());
        },
    }
}

/// The value of a plain setting.
fn text_value(v: &Option<String>) -> (res: Option<String>)
    ensures
        opt_text(res) == opt_text(*v),
{
    match v {
        Some(s) => Some(s.clone()),
        None => None,
    }
}

/// The value of a secret setting.
fn secret_value(v: &Option<SecretString>) -> (res: Option<String>)
    ensures
        opt_text(res) == opt_secret(*v),
{
    match v {
        Some(s) => Some(s.get_string()),
        None => None,
    }
}

/// The gateway headers that the configuration asks every LLM request to
/// carry, as (header name, value) pairs.
pub fn request_headers(cfg: &Cfg) -> (res: Vec<(String, String)>)
    ensures
        header_texts(res@) == portkey_headers(*cfg),
{
    let mut out: Vec<(String, String)> = Vec::new();
    assert(header_texts(out@) =~= Seq::<(Seq<char>, Seq<char>)>::empty());
    push_header(&mut out, &cfg.portkey_aws_region_header, text_value(&cfg.aws_region));
    push_header(&mut out, &cfg.portkey_provider_header, text_value(&cfg.portkey_provider_value));
    push_header(
        &mut out,
        &cfg.portkey_aws_secret_access_key_header,
        secret_value(&cfg.aws_secret_access_key),
    );
    push_header(&mut out, &cfg.portkey_aws_access_token_header, secret_value(&cfg.aws_access_token));
    push_header(
        &mut out,
        &cfg.portkey_aws_access_key_id_header,
        secret_value(&cfg.aws_access_key_id),
    );
    assert(header_texts(out@) =~= portkey_headers(*cfg));
    out
}

/// The key `role`.
pub open spec fn role_key() -> Seq<char> {
    seq!['r', 'o', 'l', 'e']
}

/// The key `content`.
pub open spec fn content_key() -> Seq<char> {
    seq!['c', 'o', 'n', 't', 'e', 'n', 't']
}

/// The key `model`.
pub open spec fn model_key() -> Seq<char> {
    seq!['m', 'o', 'd', 'e', 'l']
}

/// The key `messages`.
pub open spec fn messages_key() -> Seq<char> {
    seq!['m', 'e', 's', 's', 'a', 'g', 'e', 's']
}

/// The key `temperature`.
pub open spec fn temperature_key() -> Seq<char> {
    seq!['t', 'e', 'm', 'p', 'e', 'r', 'a', 't', 'u', 'r', 'e']
}

/// A message of the request: an object with exactly the keys `role` and
/// `content`, holding the given texts.
pub open spec fn message_reads(t: JsonTree, role: Seq<char>, content: Seq<char>) -> bool {
    &&& t is Object
    &&& keys_distinct(t)
    &&& tree_get(t, role_key()) == Some(JsonTree::Str(role))
    &&& tree_get(t, content_key()) == Some(JsonTree::Str(content))
    &&& forall|k: Seq<char>|
        k != role_key() && k != content_key() ==> #[trigger] tree_get(t, k) is None
}

/// The request body: an object with exactly the keys `model`, `messages`
/// and `temperature`: the model, the system prompt then the user message,
/// and the integer zero.
pub open spec fn body_reads(body: JsonTree, model: Seq<char>, prompt: Seq<char>, message: Seq<char>) -> bool {
    &&& body is Object
    &&& keys_distinct(body)
    &&& tree_get(body, model_key()) == Some(JsonTree::Str(model))
    &&& tree_get(body, temperature_key()) == Some(JsonTree::Number(Some(0)))
    &&& match tree_get(body, messages_key()) {
        Some(JsonTree::Array(ms)) => ms.len() == 2 && message_reads(
            ms[0],
            seq!['s', 'y', 's', 't', 'e', 'm'],
            prompt,
        ) && message_reads(ms[1], seq!['u', 's', 'e', 'r'], message),
        _ => false,
    }
    &&& forall|k: Seq<char>|
        k != model_key() && k != messages_key() && k != temperature_key() ==> #[trigger] tree_get(
            body,
            k,
        ) is None
}

/// One `{ role, content }` message.
fn message_value(role: &str, content: &str) -> (res: serde_json::Value)
    ensures
        message_reads(json_tree(res), role@, content@),
{
    let k_role = "role";
    let k_content = "content";
    proof {
        reveal_strlit("role");
        reveal_strlit("content");
        assert(k_role@ =~= seq!['r', 'o', 'l', 'e']);
        assert(k_content@ =~= seq!['c', 'o', 'n', 't', 'e', 'n', 't']);
    }
    let mut entries: Vec<(String, serde_json::Value)> = Vec::new();
    entries.push((String::from_str(k_role), json_string(role)));
    entries.push((String::from_str(k_content), json_string(content)));
    let ghost es = entries@;
    let res = json_object(entries);
    proof {
        reveal_with_fuel(crate::json::last_value, 3);
        assert(es.drop_last().drop_last() =~= Seq::<(String, serde_json::Value)>::empty());
        assert(es.last().0@ =~= seq!['c', 'o', 'n', 't', 'e', 'n', 't']);
        assert(es.drop_last().last().0@ =~= seq!['r', 'o', 'l', 'e']);
    }
    assert(tree_get(json_tree(res), role_key()) == Some(JsonTree::Str(role@)));
    assert(tree_get(json_tree(res), content_key()) == Some(JsonTree::Str(content@)));
    assert forall|k: Seq<char>| k != role_key() && k != content_key() implies #[trigger] tree_get(
        json_tree(res),
        k,
    ) is None by {
        assert(tree_get(json_tree(res), k) == crate::json::last_value(es, k));
    }
    res
}

/// The JSON body of a chat completion request: the model, the system
/// prompt and user message, and temperature zero, with no other key.
pub fn build_body(model: &str, prompt: &str, message: &str) -> (res: serde_json::Value)
    ensures
        body_reads(json_tree(res), model@, prompt@, message@),
{
    let k_model = "model";
    let k_messages = "messages";
    let k_temperature = "temperature";
    let system = "system";
    let user = "user";
    proof {
        reveal_strlit("model");
        reveal_strlit("messages");
        reveal_strlit("temperature");
        reveal_strlit("system");
        reveal_strlit("user");
        assert(k_model@ =~= seq!['m', 'o', 'd', 'e', 'l']);
        assert(k_messages@ =~= seq!['m', 'e', 's', 's', 'a', 'g', 'e', 's']);
        assert(k_temperature@ =~= seq!['t', 'e', 'm', 'p', 'e', 'r', 'a', 't', 'u', 'r', 'e']);
        assert(system@ =~= seq!['s', 'y', 's', 't', 'e', 'm']);
        assert(user@ =~= seq!['u', 's', 'e', 'r']);
    }
    let mut messages: Vec<serde_json::Value> = Vec::new();
    messages.push(message_value(system, prompt));
    messages.push(message_value(user, message));
    let ghost ms = crate::json::trees(messages@);
    let mut entries: Vec<(String, serde_json::Value)> = Vec::new();
    entries.push((String::from_str(k_model), json_string(model)));
    entries.push((String::from_str(k_messages), json_array(messages)));
    entries.push((String::from_str(k_temperature), json_number(0)));
    let ghost es = entries@;
    let res = json_object(entries);
    proof {
        reveal_with_fuel(crate::json::last_value, 4);
        assert(es.drop_last().drop_last().drop_last() =~= Seq::<(String, serde_json::Value)>::empty());
        assert(es.last().0@ =~= seq!['t', 'e', 'm', 'p', 'e', 'r', 'a', 't', 'u', 'r', 'e']);
        assert(es.drop_last().last().0@ =~= seq!['m', 'e', 's', 's', 'a', 'g', 'e', 's']);
        assert(es.drop_last().drop_last().last().0@ =~= seq!['m', 'o', 'd', 'e', 'l']);
    }
    assert(tree_get(json_tree(res), seq!['m', 'o', 'd', 'e', 'l']) == Some(JsonTree::Str(model@)));
    assert(tree_get(json_tree(res), temperature_key()) == Some(JsonTree::Number(Some(0))));
    assert(tree_get(json_tree(res), messages_key()) == Some(JsonTree::Array(ms)));
    assert forall|k: Seq<char>|
        k != model_key() && k != messages_key() && k != temperature_key() implies #[trigger] tree_get(
        json_tree(res),
        k,
    ) is None by {
        assert(tree_get(json_tree(res), k) == crate::json::last_value(es, k));
    }
    res
}

/// A pair in the right part of two joined sequences is in the whole.
proof fn lemma_contains_right(a: Seq<(Seq<char>, Seq<char>)>, b: Seq<(Seq<char>, Seq<char>)>, x: (Seq<char>, Seq<char>))
    requires
        b.contains(x),
    ensures
        (a + b).contains(x),
{
    let i = choose|i: int| 0 <= i < b.len() && b[i] == x;
    assert((a + b)[a.len() + i] == x);
}

/// A pair in the left part of two joined sequences is in the whole.
proof fn lemma_contains_left(a: Seq<(Seq<char>, Seq<char>)>, b: Seq<(Seq<char>, Seq<char>)>, x: (Seq<char>, Seq<char>))
    requires
        a.contains(x),
    ensures
        (a + b).contains(x),
{
    let i = choose|i: int| 0 <= i < a.len() && a[i] == x;
    assert((a + b)[i] == x);
}

/// Each gateway setting whose header name and value are both configured is
/// sent: the headers of the request hold that (name, value) pair, for the
/// AWS region, the provider, the secret access key, the session token and
/// the access key id.
pub proof fn law_configured_headers_sent(cfg: Cfg)
    ensures
        cfg.portkey_aws_region_header is Some && cfg.aws_region is Some
            ==> portkey_headers(cfg).contains((cfg.portkey_aws_region_header->0@, cfg.aws_region->0@)),
        cfg.portkey_provider_header is Some && cfg.portkey_provider_value is Some
            ==> portkey_headers(cfg).contains((cfg.portkey_provider_header->0@, cfg.portkey_provider_value->0@)),
        cfg.portkey_aws_secret_access_key_header is Some && cfg.aws_secret_access_key is Some
            ==> portkey_headers(cfg).contains((cfg.portkey_aws_secret_access_key_header->0@, cfg.aws_secret_access_key->0.value@)),
        cfg.portkey_aws_access_token_header is Some && cfg.aws_access_token is Some
            ==> portkey_headers(cfg).contains((cfg.portkey_aws_access_token_header->0@, cfg.aws_access_token->0.value@)),
        cfg.portkey_aws_access_key_id_header is Some && cfg.aws_access_key_id is Some
            ==> portkey_headers(cfg).contains((cfg.portkey_aws_access_key_id_header->0@, cfg.aws_access_key_id->0.value@)),
{
    let p1 = header_pair(cfg.portkey_aws_region_header, opt_text(cfg.aws_region));
    let p2 = header_pair(cfg.portkey_provider_header, opt_text(cfg.portkey_provider_value));
    let p3 = header_pair(cfg.portkey_aws_secret_access_key_header, opt_secret(cfg.aws_secret_access_key));
    let p4 = header_pair(cfg.portkey_aws_access_token_header, opt_secret(cfg.aws_access_token));
    let p5 = header_pair(cfg.portkey_aws_access_key_id_header, opt_secret(cfg.aws_access_key_id));
    assert(portkey_headers(cfg) == p1 + p2 + p3 + p4 + p5);
    if cfg.portkey_aws_region_header is Some && cfg.aws_region is Some {
        assert(p1[0] == (cfg.portkey_aws_region_header->0@, cfg.aws_region->0@));
        assert(p1.contains(p1[0]));
        lemma_contains_left(p1, p2, p1[0]);
        lemma_contains_left(p1 + p2, p3, p1[0]);
        lemma_contains_left(p1 + p2 + p3, p4, p1[0]);
        lemma_contains_left(p1 + p2 + p3 + p4, p5, p1[0]);
    }
    if cfg.portkey_provider_header is Some && cfg.portkey_provider_value is Some {
        assert(p2[0] == (cfg.portkey_provider_header->0@, cfg.portkey_provider_value->0@));
        assert(p2.contains(p2[0]));
        lemma_contains_right(p1, p2, p2[0]);
        lemma_contains_left(p1 + p2, p3, p2[0]);
        lemma_contains_left(p1 + p2 + p3, p4, p2[0]);
        lemma_contains_left(p1 + p2 + p3 + p4, p5, p2[0]);
    }
    if cfg.portkey_aws_secret_access_key_header is Some && cfg.aws_secret_access_key is Some {
        assert(p3.contains(p3[0]));
        lemma_contains_right(p1 + p2, p3, p3[0]);
        lemma_contains_left(p1 + p2 + p3, p4, p3[0]);
        lemma_contains_left(p1 + p2 + p3 + p4, p5, p3[0]);
    }
    if cfg.portkey_aws_access_token_header is Some && cfg.aws_access_token is Some {
        assert(p4.contains(p4[0]));
        lemma_contains_right(p1 + p2 + p3, p4, p4[0]);
        lemma_contains_left(p1 + p2 + p3 + p4, p5, p4[0]);
    }
    if cfg.portkey_aws_access_key_id_header is Some && cfg.aws_access_key_id is Some {
        assert(p5.contains(p5[0]));
        lemma_contains_right(p1 + p2 + p3 + p4, p5, p5[0]);
    }
}

} // verus!
