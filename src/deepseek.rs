//! Request shaping for the suggestion service: supported models, endpoint
//! URLs, timeouts and the prompt built from a conversation's context.

use vstd::prelude::*;
use crate::schema::strs_view;
use crate::text::{chars_of, decimal, decimal_string, string_of, text_eq};

verus! {

/// The models the assistant offers, in order.
pub const DEFAULT_MODELS: [&'static str; 2] = ["deepseek-chat", "deepseek-reasoner"];

/// Bounds of a request timeout, in milliseconds.
pub const MIN_TIMEOUT_MS: u64 = 2_000;
pub const MAX_TIMEOUT_MS: u64 = 8_000;

/// Characters of a message kept in a fallback summary.
pub const SUMMARY_CHARS: usize = 20;

pub open spec fn supported(m: Seq<char>) -> bool {
    m == "deepseek-chat"@ || m == "deepseek-reasoner"@
}

/// Whether `model` is one the assistant offers.
pub fn is_supported_model(model: &str) -> (r: bool)
    ensures
        r == supported(model@),
{
    text_eq(model, "deepseek-chat") || text_eq(model, "deepseek-reasoner")
}

pub open spec fn defaults_spec() -> Seq<Seq<char>> {
    seq!["deepseek-chat"@, "deepseek-reasoner"@]
}

/// The models the assistant offers, in order.
pub fn default_models() -> (r: Vec<String>)
    ensures
        strs_view(r@) == defaults_spec(),
{
    let r = vec![String::from_str("deepseek-chat"), String::from_str("deepseek-reasoner")];
    assert(strs_view(r@) =~= defaults_spec());
    r
}

fn listed(models: &Vec<String>, name: &str) -> (r: bool)
    ensures
        r == strs_view(models@).contains(name@),
{
    let mut i: usize = 0;
    while i < models.len()
        invariant
            i <= models.len(),
            forall|k: int| 0 <= k < i ==> strs_view(models@)[k] != name@,
        decreases models.len() - i,
    {
        if text_eq(models[i].as_str(), name) {
            assert(strs_view(models@)[i as int] == name@);
            return true;
        }
        i = i + 1;
    }
    false
}

/// The offered models that `models` lists, in the offered order; all offered
/// models where it lists none.
pub open spec fn normalized_models(models: Seq<Seq<char>>) -> Seq<Seq<char>> {
    let found = defaults_spec().filter(|m: Seq<char>| models.contains(m));
    if found.len() == 0 {
        defaults_spec()
    } else {
        found
    }
}

/// The offered models that `models` lists, in the offered order; all offered
/// models where it lists none.
pub fn normalize_models(models: Vec<String>) -> (r: Vec<String>)
    ensures
        strs_view(r@) == normalized_models(strs_view(models@)),
{
    let chat = listed(&models, "deepseek-chat");
    let reasoner = listed(&models, "deepseek-reasoner");
    let ghost mv = strs_view(models@);
    proof {
        let f = |m: Seq<char>| mv.contains(m);
        let d = defaults_spec();
        reveal_with_fuel(Seq::filter, 3);
        assert(d.drop_last() =~= seq!["deepseek-chat"@]);
        assert(d.drop_last().drop_last() =~= Seq::<Seq<char>>::empty());
    }
    let mut out: Vec<String> = Vec::new();
    if chat {
        out.push(String::from_str("deepseek-chat"));
    }
    if reasoner {
        out.push(String::from_str("deepseek-reasoner"));
    }
    if out.len() == 0 {
        return default_models();
    }
    proof {
        reveal_with_fuel(Seq::filter, 3);
        assert(strs_view(out@) =~= normalized_models(mv));
    }
    out
}

/// `timeout_ms` held between 2000 and 8000.
pub fn cap_timeout_ms(timeout_ms: u64) -> (r: u64)
    ensures
        r == (if timeout_ms < MIN_TIMEOUT_MS {
            MIN_TIMEOUT_MS
        } else if timeout_ms > MAX_TIMEOUT_MS {
            MAX_TIMEOUT_MS
        } else {
            timeout_ms
        }),
{
    if timeout_ms < MIN_TIMEOUT_MS {
        MIN_TIMEOUT_MS
    } else if timeout_ms > MAX_TIMEOUT_MS {
        MAX_TIMEOUT_MS
    } else {
        timeout_ms
    }
}

/// `s` without its trailing slashes.
pub open spec fn strip_slashes(s: Seq<char>) -> Seq<char>
    decreases s.len(),
{
    if s.len() > 0 && s.last() == '/' {
        strip_slashes(s.drop_last())
    } else {
        s
    }
}

fn base_without_slashes(base: &str) -> (r: String)
    ensures
        r@ == strip_slashes(base@),
{
    let cs = chars_of(base);
    let mut n: usize = cs.len();
    assert(cs@.subrange(0, n as int) =~= cs@);
    while n > 0 && cs[n - 1] == '/'
        invariant
            n <= cs.len(),
            cs@ == base@,
            strip_slashes(base@) == strip_slashes(cs@.subrange(0, n as int)),
        decreases n,
    {
        assert(cs@.subrange(0, n as int).drop_last() =~= cs@.subrange(0, n - 1));
        n = n - 1;
    }
    string_of(vstd::slice::slice_subrange(cs.as_slice(), 0, n))
}

/// The chat-completion endpoint under `base_url`.
pub fn build_chat_url(base_url: &str) -> (r: String)
    ensures
        r@ == strip_slashes(base_url@) + "/chat/completions"@,
{
    base_without_slashes(base_url).concat("/chat/completions")
}

/// The model-list endpoint under `base_url`.
pub fn build_models_url(base_url: &str) -> (r: String)
    ensures
        r@ == strip_slashes(base_url@) + "/models"@,
{
    base_without_slashes(base_url).concat("/models")
}

/// The first 20 characters of `text`, or a stand-in where it is empty.
pub fn summarize_text(text: &str) -> (r: String)
    ensures
        text@.len() == 0 ==> r@ == "消息"@,
        text@.len() > 0 ==> r@ == text@.subrange(0, if text@.len() < 20 {
            text@.len() as int
        } else {
            20
        }),
{
    let cs = chars_of(text);
    if cs.len() == 0 {
        return String::from_str("消息");
    }
    let n = if cs.len() < SUMMARY_CHARS {
        cs.len()
    } else {
        SUMMARY_CHARS
    };
    string_of(vstd::slice::slice_subrange(cs.as_slice(), 0, n))
}

/// The numbered lines of a context, `1: ...` onwards, joined by newlines.
pub open spec fn numbered(msgs: Seq<Seq<char>>, n: int) -> Seq<char>
    decreases n,
{
    if n <= 0 {
        Seq::empty()
    } else if n == 1 {
        decimal(1) + ": "@ + msgs[0]
    } else {
        numbered(msgs, n - 1) + "\n"@ + decimal(n) + ": "@ + msgs[n - 1]
    }
}

/// The prompt for a conversation's recent messages.
pub open spec fn prompt_spec(msgs: Seq<Seq<char>>) -> Seq<char> {
    if msgs.len() == 0 {
        "用户未提供上下文，请生成礼貌的确认回复。"@
    } else {
        "最近对话：\n"@ + numbered(msgs, msgs.len() as int) + "\n请生成 3 条回复建议。"@
    }
}

/// The prompt for a conversation's recent messages, numbered from 1.
pub fn build_prompt(context_messages: &[String]) -> (r: String)
    requires
        context_messages@.len() < 0x7fff_ffff,
    ensures
        r@ == prompt_spec(strs_view(context_messages@)),
{
    if context_messages.len() == 0 {
        return String::from_str("用户未提供上下文，请生成礼貌的确认回复。");
    }
    let ghost mv = strs_view(context_messages@);
    let mut lines = String::new();
    let mut i: usize = 0;
    while i < context_messages.len()
        invariant
            i <= context_messages.len(),
            context_messages@.len() < 0x7fff_ffff,
            mv == strs_view(context_messages@),
            lines@ == numbered(mv, i as int),
        decreases context_messages.len() - i,
    {
        if i > 0 {
            lines.append("\n");
        }
        lines.append(decimal_string((i + 1) as i64).as_str());
        lines.append(": ");
        lines.append(context_messages[i].as_str());
        assert(mv[i as int] == context_messages@[i as int]@);
        i = i + 1;
    }
    let out = String::from_str("最近对话：\n").concat(lines.as_str()).concat("\n请生成 3 条回复建议。");
    out
}

} // verus!
