//! The pet's AI chat over a user-configured OpenAI-compatible endpoint
//! (`/chat/completions`). The endpoint settings live in the settings table; the
//! system prompt carries the user's real local data (pending and overdue tasks,
//! today's focus time), all assembled here.
use crate::commands::pet::{PetPersonality, SettingWrite, setting_write, stored_setting, writes_view};
use crate::database::db::opt_string_view;
use crate::database::models::{Priority, Task, TaskStatus};
use crate::database::task_query::{
    lemma_lex_irreflexive, lemma_lex_total, lemma_lex_transitive, lex_lt, opt_parse_rfc3339,
    opt_parses, opt_text_view, spec_is_pending,
};
use crate::json::{as_text, element, field, get_element, get_field, text_of, Json};
use crate::text::{spec_dec, spec_dec_nat};
use crate::time::Instant;
use crate::text::{is_blank, spec_ends_with, spec_lines, spec_trim, spec_trim_end_char};
use vstd::prelude::*;

verus! {

/// The pet window shows an AI reply as a bubble when it receives this event.
pub const EVENT_AI_REPLY: &'static str = "ai://reply";
pub const AI_BASE_URL_KEY: &'static str = "aiBaseUrl";
pub const AI_API_KEY_KEY: &'static str = "aiApiKey";
pub const AI_MODEL_KEY: &'static str = "aiModel";
/// Timeout of one request, in seconds.
pub const REQUEST_TIMEOUT_SECS: u64 = 60;
/// At most this many history messages go to the model; older ones are dropped.
pub const MAX_HISTORY_MESSAGES: usize = 20;
/// Each message is cut to this many characters.
pub const MAX_MESSAGE_CHARS: usize = 4000;
/// Characters of a reply shown in the pet's bubble.
pub const BUBBLE_CHARS: usize = 60;

/// The endpoint settings as shown to the user (the key itself is never sent back).
#[derive(Debug, Clone)]
pub struct AiConfig {
    pub base_url: String,
    pub model: String,
    pub has_api_key: bool,
}

/// One chat message: `role` is "system", "user" or "assistant".
#[derive(Debug, Clone)]
pub struct AiChatMessage {
    pub role: String,
    pub content: String,
}

pub open spec fn msg_view(m: AiChatMessage) -> (Seq<char>, Seq<char>) {
    (m.role@, m.content@)
}

pub open spec fn msgs_view(v: Seq<AiChatMessage>) -> Seq<(Seq<char>, Seq<char>)> {
    v.map_values(|m: AiChatMessage| msg_view(m))
}

// ---------------------------------------------------------------------------
// Endpoint and configuration.
// ---------------------------------------------------------------------------

pub open spec fn completions_suffix() -> Seq<char> {
    "/chat/completions"@
}

/// The chat endpoint of a base address: trimmed, without trailing slashes, and
/// with `/chat/completions` appended unless it already ends so.
pub open spec fn spec_chat_endpoint(base: Seq<char>) -> Seq<char> {
    let t = spec_trim_end_char(spec_trim(base), '/');
    if spec_ends_with(t, completions_suffix()) { t } else { t + completions_suffix() }
}

pub fn chat_endpoint(base_url: &str) -> (r: String)
    ensures
        r@ == spec_chat_endpoint(base_url@),
{
    let base = crate::text::trim_end_char(crate::text::trim(base_url), '/');
    if crate::text::ends_with(base, "/chat/completions") {
        String::from_str(base)
    } else {
        crate::text::concat(base, "/chat/completions")
    }
}

proof fn lemma_trim_start_fixed(s: Seq<char>)
    requires
        s.len() == 0 || !crate::text::is_unicode_ws(s[0]),
    ensures
        crate::text::spec_trim_start(s) == s,
{
}

proof fn lemma_trim_end_fixed(s: Seq<char>)
    requires
        s.len() == 0 || !crate::text::is_unicode_ws(s.last()),
    ensures
        crate::text::spec_trim_end(s) == s,
{
}

proof fn lemma_trim_start_head(s: Seq<char>)
    ensures
        crate::text::spec_trim_start(s).len() == 0 || !crate::text::is_unicode_ws(
            crate::text::spec_trim_start(s)[0],
        ),
        crate::text::spec_trim_start(s).len() > 0 ==> s.len() > 0 && crate::text::spec_trim_start(s).last()
            == s.last(),
    decreases s.len(),
{
    if s.len() > 0 && crate::text::is_unicode_ws(s[0]) {
        lemma_trim_start_head(s.drop_first());
    }
}

proof fn lemma_trim_end_keeps_head(s: Seq<char>)
    ensures
        crate::text::spec_trim_end(s).len() <= s.len(),
        crate::text::spec_trim_end(s).len() > 0 ==> crate::text::spec_trim_end(s)[0] == s[0],
        crate::text::spec_trim_end(s) == s.take(crate::text::spec_trim_end(s).len() as int),
    decreases s.len(),
{
    if s.len() > 0 && crate::text::is_unicode_ws(s.last()) {
        lemma_trim_end_keeps_head(s.drop_last());
        let t = crate::text::spec_trim_end(s.drop_last());
        assert(s.drop_last().take(t.len() as int) =~= s.take(t.len() as int));
    }
}

proof fn lemma_trim_end_char_prefix(s: Seq<char>, c: char)
    ensures
        spec_trim_end_char(s, c).len() <= s.len(),
        spec_trim_end_char(s, c) == s.take(spec_trim_end_char(s, c).len() as int),
    decreases s.len(),
{
    if s.len() > 0 && s.last() == c {
        lemma_trim_end_char_prefix(s.drop_last(), c);
        let t = spec_trim_end_char(s.drop_last(), c);
        assert(s.drop_last().take(t.len() as int) =~= s.take(t.len() as int));
    }
}

/// An endpoint, once made, comes out of `chat_endpoint` unchanged.
pub proof fn lemma_chat_endpoint_idempotent(base: Seq<char>)
    ensures
        spec_chat_endpoint(spec_chat_endpoint(base)) == spec_chat_endpoint(base),
{
    let ts = crate::text::spec_trim_start(base);
    let tr = spec_trim(base);
    let t = spec_trim_end_char(tr, '/');
    let e = spec_chat_endpoint(base);
    let suf = completions_suffix();
    reveal_strlit("/chat/completions");
    lemma_trim_start_head(base);
    lemma_trim_end_keeps_head(ts);
    lemma_trim_end_char_prefix(tr, '/');
    // `e` ends with the suffix, whose last character is not white space or '/'.
    assert(spec_ends_with(e, suf)) by {
        if !spec_ends_with(t, suf) {
            assert((t + suf).subrange(t.len() as int, (t + suf).len() as int) =~= suf);
        }
    }
    assert(e.len() >= suf.len());
    assert(e.last() == 's') by {
        assert(e.last() == e.subrange(e.len() - suf.len(), e.len() as int)[suf.len() - 1]);
    }
    // `e` starts with a character that is not white space.
    assert(!crate::text::is_unicode_ws(e[0])) by {
        if t.len() > 0 {
            assert(e[0] == t[0]);
            assert(t[0] == tr[0]);
            assert(tr[0] == ts[0]);
        } else {
            assert(e =~= suf);
        }
    }
    lemma_trim_start_fixed(e);
    lemma_trim_end_fixed(e);
    assert(spec_trim(e) == e);
    assert(spec_trim_end_char(e, '/') == e);
}

/// All three endpoint settings are filled in (not blank).
pub fn is_configured(base_url: &str, api_key: &str, model: &str) -> (r: bool)
    ensures
        r == (!is_blank(base_url@) && !is_blank(api_key@) && !is_blank(model@)),
{
    !crate::text::blank(base_url) && !crate::text::blank(api_key) && !crate::text::blank(model)
}

/// `c` is the configuration shown for stored values `base_url`, `model`, `api_key`.
pub open spec fn is_ai_config_of(c: AiConfig, base_url: Option<Seq<char>>, model: Option<Seq<char>>, api_key: Option<Seq<char>>) -> bool {
    &&& c.base_url@ == match base_url {
        Some(v) => v,
        None => Seq::empty(),
    }
    &&& c.model@ == match model {
        Some(v) => v,
        None => Seq::empty(),
    }
    &&& c.has_api_key == match api_key {
        Some(v) => !is_blank(v),
        None => false,
    }
}

/// The configuration shown for the stored values: empty text for a missing address
/// or model; a key counts when it is stored and not blank.
pub fn ai_config_of(base_url: &Option<String>, model: &Option<String>, api_key: &Option<String>) -> (r:
    AiConfig)
    ensures
        r.base_url@ == match opt_string_view(*base_url) {
            Some(v) => v,
            None => Seq::empty(),
        },
        r.model@ == match opt_string_view(*model) {
            Some(v) => v,
            None => Seq::empty(),
        },
        r.has_api_key == match opt_string_view(*api_key) {
            Some(v) => !is_blank(v),
            None => false,
        },
{
    AiConfig {
        base_url: match base_url {
            Some(v) => v.clone(),
            None => String::new(),
        },
        model: match model {
            Some(v) => v.clone(),
            None => String::new(),
        },
        has_api_key: match api_key {
            Some(v) => !crate::text::blank(v.as_str()),
            None => false,
        },
    }
}

/// Reads the endpoint configuration.
pub fn read_ai_config(conn: &rusqlite::Connection) -> (r: AiConfig)
    ensures
        exists|b: Option<Seq<char>>, m: Option<Seq<char>>, k: Option<Seq<char>>| #[trigger] is_ai_config_of(r, b, m, k),
{
    let base_url = stored_setting(conn, AI_BASE_URL_KEY);
    let model = stored_setting(conn, AI_MODEL_KEY);
    let api_key = stored_setting(conn, AI_API_KEY_KEY);
    let r = ai_config_of(&base_url, &model, &api_key);
    assert(is_ai_config_of(r, opt_string_view(base_url), opt_string_view(model), opt_string_view(api_key)));
    r
}

/// Saving the endpoint settings, trimmed; a blank key keeps the stored one.
pub fn ai_config_writes(base_url: &str, api_key: &str, model: &str) -> (r: Vec<SettingWrite>)
    ensures
        writes_view(r@) == seq![(AI_BASE_URL_KEY@, spec_trim(base_url@)), (AI_MODEL_KEY@, spec_trim(model@))]
            + if is_blank(api_key@) {
            Seq::<(Seq<char>, Seq<char>)>::empty()
        } else {
            seq![(AI_API_KEY_KEY@, spec_trim(api_key@))]
        },
{
    let mut out: Vec<SettingWrite> = Vec::new();
    out.push(setting_write(AI_BASE_URL_KEY, crate::text::trim(base_url)));
    out.push(setting_write(AI_MODEL_KEY, crate::text::trim(model)));
    let ghost two = writes_view(out@);
    if !crate::text::blank(api_key) {
        out.push(setting_write(AI_API_KEY_KEY, crate::text::trim(api_key)));
    }
    proof {
        assert(two =~= seq![(AI_BASE_URL_KEY@, spec_trim(base_url@)), (AI_MODEL_KEY@, spec_trim(model@))]);
        assert(writes_view(out@) =~= seq![
            (AI_BASE_URL_KEY@, spec_trim(base_url@)),
            (AI_MODEL_KEY@, spec_trim(model@)),
        ] + if is_blank(api_key@) {
            Seq::<(Seq<char>, Seq<char>)>::empty()
        } else {
            seq![(AI_API_KEY_KEY@, spec_trim(api_key@))]
        });
    }
    out
}

// ---------------------------------------------------------------------------
// The conversation.
// ---------------------------------------------------------------------------

/// A message the model gets: from the user or the assistant, and not blank.
pub open spec fn is_chat_message(m: (Seq<char>, Seq<char>)) -> bool {
    (m.0 == "user"@ || m.0 == "assistant"@) && !is_blank(m.1)
}

pub open spec fn clip(s: Seq<char>, n: int) -> Seq<char> {
    if s.len() <= n { s } else { s.take(n) }
}

/// The first `n` characters of a text (all of it when it is shorter).
pub fn clip_chars(s: &str, n: usize) -> (r: String)
    ensures
        r@ == clip(s@, n as int),
{
    let r = crate::text::take_chars(s, n);
    assert(s@.take(s@.len() as int) =~= s@);
    r
}

/// The chat messages of a history, in order, each cut to `MAX_MESSAGE_CHARS`.
pub open spec fn kept_messages(ms: Seq<(Seq<char>, Seq<char>)>) -> Seq<(Seq<char>, Seq<char>)>
    decreases ms.len(),
{
    if ms.len() == 0 {
        Seq::empty()
    } else {
        let prev = kept_messages(ms.drop_last());
        let m = ms.last();
        if is_chat_message(m) { prev.push((m.0, clip(m.1, MAX_MESSAGE_CHARS as int))) } else { prev }
    }
}

/// The last `n` entries (all of them when there are fewer).
pub open spec fn last_n<A>(s: Seq<A>, n: int) -> Seq<A> {
    if s.len() <= n { s } else { s.skip(s.len() - n) }
}

/// The history the model gets: the chat messages, each cut to 4000 characters, at
/// most the last 20 of them; none at all is refused.
pub fn prepare_history(messages: &Vec<AiChatMessage>) -> (r: Result<Vec<AiChatMessage>, String>)
    ensures
        kept_messages(msgs_view(messages@)).len() == 0 ==> (r matches Err(e) && e@ == "消息为空"@),
        kept_messages(msgs_view(messages@)).len() > 0 ==> (r matches Ok(h) && msgs_view(h@) == last_n(
            kept_messages(msgs_view(messages@)),
            MAX_HISTORY_MESSAGES as int,
        )),
{
    let mut kept: Vec<AiChatMessage> = Vec::new();
    let mut i: usize = 0;
    while i < messages.len()
        invariant
            i <= messages.len(),
            msgs_view(kept@) == kept_messages(msgs_view(messages@.take(i as int))),
        decreases messages.len() - i,
    {
        let m = &messages[i];
        let ghost before = msgs_view(kept@);
        proof {
            assert(msgs_view(messages@.take(i + 1)).drop_last() =~= msgs_view(messages@.take(i as int)));
            assert(msgs_view(messages@.take(i + 1)).last() == msg_view(messages@[i as int]));
        }
        let role = m.role.as_str();
        if (crate::text::str_eq(role, "user") || crate::text::str_eq(role, "assistant"))
            && !crate::text::blank(m.content.as_str()) {
            let content = clip_chars(m.content.as_str(), MAX_MESSAGE_CHARS);
            let role_copy = m.role.clone();
            let ghost cv = content@;
            kept.push(AiChatMessage { role: role_copy, content });
            proof {
                assert(cv == clip(m.content@, MAX_MESSAGE_CHARS as int));
                assert(msgs_view(kept@) =~= before.push((m.role@, cv)));
            }
        }
        i += 1;
    }
    assert(messages@.take(messages.len() as int) =~= messages@);
    if kept.len() == 0 {
        return Err(String::from_str("消息为空"));
    }
    if kept.len() <= MAX_HISTORY_MESSAGES {
        return Ok(kept);
    }
    let start = kept.len() - MAX_HISTORY_MESSAGES;
    let mut out: Vec<AiChatMessage> = Vec::new();
    let mut j: usize = start;
    while j < kept.len()
        invariant
            start <= j <= kept.len(),
            msgs_view(out@) == msgs_view(kept@).subrange(start as int, j as int),
        decreases kept.len() - j,
    {
        let m = &kept[j];
        let ghost before = msgs_view(out@);
        out.push(AiChatMessage { role: m.role.clone(), content: m.content.clone() });
        assert(msgs_view(out@) =~= before.push(msg_view(kept@[j as int])));
        j += 1;
        assert(msgs_view(out@) =~= msgs_view(kept@).subrange(start as int, j as int));
    }
    assert(msgs_view(kept@).subrange(start as int, kept.len() as int) =~= msgs_view(kept@).skip(
        start as int,
    ));
    Ok(out)
}

/// The first line that is not blank.
pub open spec fn first_nonblank(lines: Seq<Seq<char>>) -> Option<Seq<char>>
    decreases lines.len(),
{
    if lines.len() == 0 {
        None
    } else if !is_blank(lines[0]) {
        Some(lines[0])
    } else {
        first_nonblank(lines.drop_first())
    }
}

/// What the pet's bubble shows of a reply: its first non-blank line (the whole
/// reply when there is none), cut to 60 characters.
pub open spec fn spec_bubble_text(reply: Seq<char>) -> Seq<char> {
    let line = match first_nonblank(spec_lines(reply)) {
        Some(l) => l,
        None => reply,
    };
    clip(line, BUBBLE_CHARS as int)
}

pub fn bubble_text(reply: &str) -> (r: String)
    ensures
        r@ == spec_bubble_text(reply@),
{
    let lines = crate::text::lines(reply);
    let mut i: usize = 0;
    let ghost all = spec_lines(reply@);
    assert(all.skip(0) =~= all);
    while i < lines.len()
        invariant
            i <= lines.len(),
            all == spec_lines(reply@),
            lines.len() == all.len(),
            forall|k: int| 0 <= k < lines.len() ==> (#[trigger] lines@[k])@ == all[k],
            first_nonblank(all) == first_nonblank(all.skip(i as int)),
        decreases lines.len() - i,
    {
        if !crate::text::blank(lines[i].as_str()) {
            let ghost rest = all.skip(i as int);
            assert(rest[0] == all[i as int]);
            assert(lines@[i as int]@ == all[i as int]);
            assert(first_nonblank(rest) == Some(all[i as int]));
            return clip_chars(lines[i].as_str(), BUBBLE_CHARS);
        }
        assert(all.skip(i as int).drop_first() =~= all.skip(i + 1));
        i += 1;
    }
    clip_chars(reply, BUBBLE_CHARS)
}

// ---------------------------------------------------------------------------
// Prompts.
// ---------------------------------------------------------------------------

pub open spec fn spec_persona_prompt(p: PetPersonality) -> Seq<char> {
    match p {
        PetPersonality::Gentle => "你是 FloatDo 的桌宠助手，一只住在用户桌面上的温柔小猫。语气亲切、体贴、会鼓励人，可以偶尔用「喵」。"@,
        PetPersonality::Motivator => "你是 FloatDo 的桌宠助手，一个热血的加油教练（小猫形象）。充满干劲、爱打气、多用感叹号，可以喊「冲呀」，但不要聒噪。"@,
        PetPersonality::Sarcastic => "你是 FloatDo 的桌宠助手，一只嘴硬心软的毒舌小猫。爱调侃用户的拖延和小懒惰，但绝不辱骂、不贬低人格，关键提醒要认真给。"@,
        PetPersonality::Cool => "你是 FloatDo 的桌宠助手，一只高冷的小猫。话少而精，一两句点破重点，不啰嗦、基本不用语气词和表情。"@,
    }
}

/// The opening persona of each personality (the bubbles use the same tone).
pub fn persona_prompt(personality: PetPersonality) -> (r: &'static str)
    ensures
        r@ == spec_persona_prompt(personality),
{
    match personality {
        PetPersonality::Gentle => "你是 FloatDo 的桌宠助手，一只住在用户桌面上的温柔小猫。语气亲切、体贴、会鼓励人，可以偶尔用「喵」。",
        PetPersonality::Motivator => "你是 FloatDo 的桌宠助手，一个热血的加油教练（小猫形象）。充满干劲、爱打气、多用感叹号，可以喊「冲呀」，但不要聒噪。",
        PetPersonality::Sarcastic => "你是 FloatDo 的桌宠助手，一只嘴硬心软的毒舌小猫。爱调侃用户的拖延和小懒惰，但绝不辱骂、不贬低人格，关键提醒要认真给。",
        PetPersonality::Cool => "你是 FloatDo 的桌宠助手，一只高冷的小猫。话少而精，一两句点破重点，不啰嗦、基本不用语气词和表情。",
    }
}

/// The output rules every personality keeps.
pub const PROMPT_TAIL: &'static str = "回复保持简短（尽量不超过 100 字），不要用 markdown 格式，不要列表符号。用户给你的资料是此刻的真实数据，回答相关问题时直接引用；用户聊别的话题时也正常陪聊，保持角色。";

pub open spec fn spec_system_prompt(p: PetPersonality) -> Seq<char> {
    spec_persona_prompt(p) + PROMPT_TAIL@
}

/// The system prompt: the persona, then the output rules.
pub fn system_prompt(personality: PetPersonality) -> (r: String)
    ensures
        r@ == spec_system_prompt(personality),
{
    crate::text::concat(persona_prompt(personality), PROMPT_TAIL)
}

/// Different personalities give different system prompts.
pub proof fn lemma_system_prompts_differ(a: PetPersonality, b: PetPersonality)
    requires
        a != b,
    ensures
        spec_system_prompt(a) != spec_system_prompt(b),
{
    let pa = spec_persona_prompt(a);
    let pb = spec_persona_prompt(b);
    reveal_strlit("你是 FloatDo 的桌宠助手，一只住在用户桌面上的温柔小猫。语气亲切、体贴、会鼓励人，可以偶尔用「喵」。");
    reveal_strlit("你是 FloatDo 的桌宠助手，一个热血的加油教练（小猫形象）。充满干劲、爱打气、多用感叹号，可以喊「冲呀」，但不要聒噪。");
    reveal_strlit("你是 FloatDo 的桌宠助手，一只嘴硬心软的毒舌小猫。爱调侃用户的拖延和小懒惰，但绝不辱骂、不贬低人格，关键提醒要认真给。");
    reveal_strlit("你是 FloatDo 的桌宠助手，一只高冷的小猫。话少而精，一两句点破重点，不啰嗦、基本不用语气词和表情。");
    // The personas part at their 19th or 20th character (一只住 / 一个热 / 一只嘴 / 一只高).
    assert(spec_system_prompt(a)[18] == pa[18] && spec_system_prompt(a)[19] == pa[19]);
    assert(spec_system_prompt(b)[18] == pb[18] && spec_system_prompt(b)[19] == pb[19]);
}

// ---------------------------------------------------------------------------
// The request and the reply.
// ---------------------------------------------------------------------------

pub open spec fn not_configured_message() -> Seq<char> {
    "还没有配置 AI 接口，请先到「设置 → AI 助手」填写接口地址、API Key 和模型名"@
}

/// Everything a chat request carries besides the fixed sampling parameters.
#[derive(Debug, Clone)]
pub struct ChatRequest {
    pub endpoint: String,
    pub api_key: String,
    pub model: String,
    pub messages: Vec<AiChatMessage>,
}

/// Assembles a chat request: a system message (the personality's prompt, a blank
/// line, the local context), then the history. Refused while the endpoint is not
/// configured.
pub fn chat_request(
    base_url: &str,
    api_key: &str,
    model: &str,
    personality: PetPersonality,
    context: &str,
    history: Vec<AiChatMessage>,
) -> (r: Result<ChatRequest, String>)
    ensures
        !(!is_blank(base_url@) && !is_blank(api_key@) && !is_blank(model@)) ==> (r matches Err(e) && e@
            == not_configured_message()),
        (!is_blank(base_url@) && !is_blank(api_key@) && !is_blank(model@)) ==> (r matches Ok(q) && q.endpoint@
            == spec_chat_endpoint(base_url@) && q.api_key@ == spec_trim(api_key@) && q.model@ == spec_trim(
            model@,
        ) && msgs_view(q.messages@) == seq![("system"@, spec_system_prompt(personality) + "\n\n"@ + context@)]
            + msgs_view(history@)),
{
    if !is_configured(base_url, api_key, model) {
        return Err(String::from_str("还没有配置 AI 接口，请先到「设置 → AI 助手」填写接口地址、API Key 和模型名"));
    }
    let prompt = system_prompt(personality);
    let content = crate::text::concat3(prompt.as_str(), "\n\n", context);
    let mut messages: Vec<AiChatMessage> = Vec::new();
    messages.push(AiChatMessage { role: String::from_str("system"), content });
    let ghost first = msgs_view(messages@);
    let mut i: usize = 0;
    while i < history.len()
        invariant
            i <= history.len(),
            msgs_view(messages@) == first + msgs_view(history@).take(i as int),
        decreases history.len() - i,
    {
        let m = &history[i];
        let ghost before = msgs_view(messages@);
        messages.push(AiChatMessage { role: m.role.clone(), content: m.content.clone() });
        assert(msgs_view(messages@) =~= before.push(msg_view(history@[i as int])));
        i += 1;
        assert(msgs_view(messages@) =~= first + msgs_view(history@).take(i as int));
    }
    assert(msgs_view(history@).take(history.len() as int) =~= msgs_view(history@));
    Ok(ChatRequest {
        endpoint: chat_endpoint(base_url),
        api_key: String::from_str(crate::text::trim(api_key)),
        model: String::from_str(crate::text::trim(model)),
        messages,
    })
}

/// What serde_json parses a text to, as a `Json` value, or its error text.
pub uninterp spec fn spec_parse_json(body: Seq<char>) -> Result<Json, Seq<char>>;

#[verifier::external_type_specification]
#[verifier::external_body]
pub struct ExJsonValue(serde_json::Value);

/// serde_json: a `Value` as the library's `Json`, variant for variant (a number
/// keeps its text, an object its members in the map's order).
#[verifier::external_body]
fn json_of(v: serde_json::Value) -> Json {
    match v {
        serde_json::Value::Null => Json::Null,
        serde_json::Value::Bool(b) => Json::Bool(b),
        serde_json::Value::Number(n) => Json::Number(n.to_string()),
        serde_json::Value::String(s) => Json::Text(s),
        serde_json::Value::Array(a) => Json::Array(a.into_iter().map(json_of).collect()),
        serde_json::Value::Object(m) => Json::Object(m.into_iter().map(|(k, v)| (k, json_of(v))).collect()),
    }
}

/// serde_json `from_str::<Value>`: the parsed value (as `Json`) or the error's text.
/// The result is named.
#[verifier::external_body]
fn parse_json(body: &str) -> (r: Result<Json, String>)
    ensures
        match spec_parse_json(body@) {
            Ok(j) => r matches Ok(x) && x == j,
            Err(e) => r matches Err(x) && x@ == e,
        },
{
    match serde_json::from_str::<serde_json::Value>(body) {
        Ok(v) => Ok(json_of(v)),
        Err(e) => Err(e.to_string()),
    }
}

/// The reply text of a chat response: `choices[0].message.content` when it is a string.
pub open spec fn spec_reply_text(j: Json) -> Option<Seq<char>> {
    as_text(field(field(element(field(j, "choices"@), 0), "message"@), "content"@))
}

/// What a response body gives: a parse error's text, or the reply text (none when
/// there is no string there).
pub open spec fn spec_reply_content(body: Seq<char>) -> Result<Option<Seq<char>>, Seq<char>> {
    match spec_parse_json(body) {
        Ok(j) => Ok(spec_reply_text(j)),
        Err(e) => Err(e),
    }
}

/// `choices[0].message.content` of a parsed response, when it is a string.
pub fn reply_text(j: &Json) -> (r: Option<String>)
    ensures
        match spec_reply_text(*j) {
            Some(t) => r matches Some(x) && x@ == t,
            None => r is None,
        },
{
    proof {
        reveal_strlit("choices");
        reveal_strlit("message");
        reveal_strlit("content");
    }
    let choices = get_field(Some(j), "choices");
    let first = get_element(choices, 0);
    let message = get_field(first, "message");
    let content = get_field(message, "content");
    text_of(content)
}

/// Parses a response body and reads its reply text.
fn parse_reply_content(body: &str) -> (r: Result<Option<String>, String>)
    ensures
        match spec_reply_content(body@) {
            Ok(Some(c)) => r matches Ok(Some(x)) && x@ == c,
            Ok(None) => r matches Ok(None),
            Err(e) => r matches Err(x) && x@ == e,
        },
{
    match parse_json(body) {
        Ok(j) => Ok(reply_text(&j)),
        Err(e) => Err(e),
    }
}

/// The reply to a successful response, from what its body parsed to.
pub open spec fn spec_reply_of(
    parsed: Result<Option<Seq<char>>, Seq<char>>,
    body: Seq<char>,
) -> Result<Seq<char>, Seq<char>> {
    match parsed {
        Err(e) => Err("解析 AI 响应失败: "@ + e),
        Ok(None) => Err("AI 响应里没有回复内容: "@ + clip(body, 200)),
        Ok(Some(c)) => Ok(spec_trim(c)),
    }
}

pub open spec fn result_view(r: Result<String, String>) -> Result<Seq<char>, Seq<char>> {
    match r {
        Ok(s) => Ok(s@),
        Err(e) => Err(e@),
    }
}

pub open spec fn parsed_view(p: Result<Option<String>, String>) -> Result<Option<Seq<char>>, Seq<char>> {
    match p {
        Ok(Some(s)) => Ok(Some(s@)),
        Ok(None) => Ok(None),
        Err(e) => Err(e@),
    }
}

/// The reply to a successful response: the trimmed content, or why there is none.
pub fn reply_of(parsed: Result<Option<String>, String>, body: &str) -> (r: Result<String, String>)
    ensures
        result_view(r) == spec_reply_of(parsed_view(parsed), body@),
{
    match parsed {
        Err(e) => Err(crate::text::concat("解析 AI 响应失败: ", e.as_str())),
        Ok(None) => {
            let snippet = clip_chars(body, 200);
            Err(crate::text::concat("AI 响应里没有回复内容: ", snippet.as_str()))
        },
        Ok(Some(c)) => Ok(String::from_str(crate::text::trim(c.as_str()))),
    }
}

/// The reply to a response: a failure status is reported with the first 200
/// characters of the body; otherwise the body's content is read.
pub fn reply_from_response(success: bool, status: &str, body: &str) -> (r: Result<String, String>)
    ensures
        !success ==> result_view(r) == Err::<Seq<char>, Seq<char>>(
            "AI 接口返回 "@ + status@ + ": "@ + clip(body@, 200),
        ),
        success ==> result_view(r) == spec_reply_of(spec_reply_content(body@), body@),
{
    if !success {
        let snippet = clip_chars(body, 200);
        let mut out = String::from_str("AI 接口返回 ");
        out.append(status);
        out.append(": ");
        out.append(snippet.as_str());
        return Err(out);
    }
    reply_of(parse_reply_content(body), body)
}


// ---------------------------------------------------------------------------
// The local context: pending tasks, overdue ones, today's focus.
// ---------------------------------------------------------------------------

/// How a priority is written in the context (its `Debug` name).
pub open spec fn spec_priority_label(p: Priority) -> Seq<char> {
    match p {
        Priority::Urgent => "Urgent"@,
        Priority::High => "High"@,
        Priority::Medium => "Medium"@,
        Priority::Low => "Low"@,
    }
}

pub fn priority_label(p: Priority) -> (r: &'static str)
    ensures
        r@ == spec_priority_label(p),
{
    match p {
        Priority::Urgent => "Urgent",
        Priority::High => "High",
        Priority::Medium => "Medium",
        Priority::Low => "Low",
    }
}

/// Urgent first.
pub open spec fn priority_rank(p: Priority) -> int {
    match p {
        Priority::Urgent => 0,
        Priority::High => 1,
        Priority::Medium => 2,
        Priority::Low => 3,
    }
}

fn rank_of(p: Priority) -> (r: u8)
    ensures
        r == priority_rank(p),
{
    match p {
        Priority::Urgent => 0,
        Priority::High => 1,
        Priority::Medium => 2,
        Priority::Low => 3,
    }
}

/// The task's due stamp parses and lies before `now`.
pub open spec fn spec_due_passed(t: Task, now: Instant) -> bool {
    opt_parse_rfc3339(t.due_at) matches Some(d) && d.before(now)
}

pub fn due_passed(t: &Task, now: Instant) -> (r: bool)
    ensures
        r == spec_due_passed(*t, now),
{
    match crate::database::task_query::parse_opt_stamp(&t.due_at) {
        Some(d) => crate::time::instant_before(d, now),
        None => false,
    }
}

/// Due stamps in text order, a missing one first.
pub open spec fn due_lt(a: Option<Seq<char>>, b: Option<Seq<char>>) -> bool {
    match (a, b) {
        (None, Some(_)) => true,
        (Some(x), Some(y)) => lex_lt(x, y),
        _ => false,
    }
}

/// The order of the pending list: overdue first, then by priority, then by due
/// stamp, then as listed.
pub open spec fn pending_before(tasks: Seq<Task>, now: Instant, i: int, j: int) -> bool {
    let oa = spec_due_passed(tasks[i], now);
    let ob = spec_due_passed(tasks[j], now);
    let ra = priority_rank(tasks[i].priority);
    let rb = priority_rank(tasks[j].priority);
    let da = opt_text_view(tasks[i].due_at);
    let db = opt_text_view(tasks[j].due_at);
    ||| oa && !ob
    ||| oa == ob && ra < rb
    ||| oa == ob && ra == rb && due_lt(da, db)
    ||| oa == ob && ra == rb && da == db && i < j
}

proof fn lemma_pending_order(tasks: Seq<Task>, now: Instant)
    ensures
        forall|i: int, j: int, k: int|
            pending_before(tasks, now, i, j) && pending_before(tasks, now, j, k) ==> pending_before(
                tasks,
                now,
                i,
                k,
            ),
        forall|i: int, j: int| i != j ==> pending_before(tasks, now, i, j) || pending_before(tasks, now, j, i),
        forall|i: int, j: int| pending_before(tasks, now, i, j) ==> !pending_before(tasks, now, j, i),
{
    assert forall|i: int, j: int, k: int|
        pending_before(tasks, now, i, j) && pending_before(tasks, now, j, k) implies pending_before(
        tasks,
        now,
        i,
        k,
    ) by {
        let (a, b, c) = (opt_text_view(tasks[i].due_at), opt_text_view(tasks[j].due_at), opt_text_view(
            tasks[k].due_at,
        ));
        if a is Some && b is Some && c is Some && lex_lt(a->Some_0, b->Some_0) && lex_lt(b->Some_0, c->Some_0) {
            lemma_lex_transitive(a->Some_0, b->Some_0, c->Some_0);
        }
    }
    assert forall|i: int, j: int| i != j implies pending_before(tasks, now, i, j) || pending_before(
        tasks,
        now,
        j,
        i,
    ) by {
        let (a, b) = (opt_text_view(tasks[i].due_at), opt_text_view(tasks[j].due_at));
        if a is Some && b is Some {
            lemma_lex_total(a->Some_0, b->Some_0);
        }
    }
    assert forall|i: int, j: int| pending_before(tasks, now, i, j) implies !pending_before(tasks, now, j, i) by {
        let (a, b) = (opt_text_view(tasks[i].due_at), opt_text_view(tasks[j].due_at));
        if a is Some && b is Some {
            lemma_lex_irreflexive(a->Some_0);
            if lex_lt(a->Some_0, b->Some_0) && lex_lt(b->Some_0, a->Some_0) {
                lemma_lex_transitive(a->Some_0, b->Some_0, a->Some_0);
            }
        }
    }
}

/// `r` lists every position of `tasks` once, in `pending_before` order (which fixes it).
pub open spec fn is_pending_order(tasks: Seq<Task>, now: Instant, r: Seq<usize>) -> bool {
    &&& r.len() == tasks.len()
    &&& forall|i: int| 0 <= i < r.len() ==> (#[trigger] r[i] as int) < tasks.len()
    &&& forall|k: int| 0 <= k < tasks.len() ==> #[trigger] r.contains(k as usize)
    &&& forall|i: int, j: int| 0 <= i < j < r.len() ==> pending_before(tasks, now, r[i] as int, r[j] as int)
}

/// Sorted strictly by `pending_before`.
pub open spec fn pending_sorted(tasks: Seq<Task>, now: Instant, s: Seq<usize>) -> bool {
    forall|i: int, j: int| 0 <= i < j < s.len() ==> pending_before(tasks, now, s[i] as int, s[j] as int)
}

proof fn lemma_sorted_unique(tasks: Seq<Task>, now: Instant, s1: Seq<usize>, s2: Seq<usize>)
    requires
        s1.len() == s2.len(),
        forall|x: usize| s1.contains(x) <==> s2.contains(x),
        pending_sorted(tasks, now, s1),
        pending_sorted(tasks, now, s2),
    ensures
        s1 == s2,
    decreases s1.len(),
{
    lemma_pending_order(tasks, now);
    if s1.len() == 0 {
        assert(s1 =~= s2);
        return;
    }
    let a = s1[0];
    let b = s2[0];
    assert(s2.contains(a));
    assert(s1.contains(b));
    let p = choose|p: int| 0 <= p < s2.len() && s2[p] == a;
    let q = choose|q: int| 0 <= q < s1.len() && s1[q] == b;
    if a != b {
        assert(p != 0);
        assert(q != 0);
        assert(pending_before(tasks, now, b as int, a as int));
        assert(pending_before(tasks, now, a as int, b as int));
        assert(false);
    }
    let t1 = s1.drop_first();
    let t2 = s2.drop_first();
    assert forall|x: usize| t1.contains(x) implies t2.contains(x) by {
        let k = choose|k: int| 0 <= k < t1.len() && t1[k] == x;
        assert(s1[k + 1] == x);
        assert(pending_before(tasks, now, a as int, x as int));
        assert(x != a);
        assert(s2.contains(x));
        let m = choose|m: int| 0 <= m < s2.len() && s2[m] == x;
        assert(m != 0);
        assert(t2[m - 1] == x);
    }
    assert forall|x: usize| t2.contains(x) implies t1.contains(x) by {
        let k = choose|k: int| 0 <= k < t2.len() && t2[k] == x;
        assert(s2[k + 1] == x);
        assert(pending_before(tasks, now, b as int, x as int));
        assert(x != b);
        assert(s1.contains(x));
        let m = choose|m: int| 0 <= m < s1.len() && s1[m] == x;
        assert(m != 0);
        assert(t1[m - 1] == x);
    }
    assert(pending_sorted(tasks, now, t1));
    assert(pending_sorted(tasks, now, t2));
    lemma_sorted_unique(tasks, now, t1, t2);
    assert(s1 =~= seq![a] + t1);
    assert(s2 =~= seq![b] + t2);
}

/// The pending order is the stable sort of the tasks (overdue first, then by
/// priority, then by due stamp with none first, then as listed): exactly one
/// order satisfies `is_pending_order`.
pub proof fn lemma_pending_order_unique(tasks: Seq<Task>, now: Instant, r1: Seq<usize>, r2: Seq<usize>)
    requires
        is_pending_order(tasks, now, r1),
        is_pending_order(tasks, now, r2),
    ensures
        r1 == r2,
{
    assert forall|x: usize| r1.contains(x) <==> r2.contains(x) by {
        if r1.contains(x) {
            let k = choose|k: int| 0 <= k < r1.len() && r1[k] == x;
            assert((r1[k] as int) < tasks.len());
            assert(r2.contains((x as int) as usize));
        }
        if r2.contains(x) {
            let k = choose|k: int| 0 <= k < r2.len() && r2[k] == x;
            assert((r2[k] as int) < tasks.len());
            assert(r1.contains((x as int) as usize));
        }
    }
    lemma_sorted_unique(tasks, now, r1, r2);
}

/// `a` comes before `b` in the pending list.
fn goes_before(
    tasks: &Vec<Task>,
    dues: &Vec<Option<Vec<char>>>,
    passed: &Vec<bool>,
    now: Instant,
    a: usize,
    b: usize,
) -> (r: bool)
    requires
        a < tasks.len(),
        b < tasks.len(),
        dues.len() == tasks.len(),
        passed.len() == tasks.len(),
        forall|i: int| 0 <= i < tasks.len() ==> #[trigger] passed@[i] == spec_due_passed(tasks@[i], now),
        forall|i: int|
            0 <= i < tasks.len() ==> match #[trigger] dues@[i] {
                Some(v) => opt_text_view(tasks@[i].due_at) == Some(v@),
                None => opt_text_view(tasks@[i].due_at) is None,
            },
    ensures
        r == pending_before(tasks@, now, a as int, b as int),
{
    let oa = passed[a];
    let ob = passed[b];
    if oa != ob {
        return oa;
    }
    let ra = rank_of(tasks[a].priority);
    let rb = rank_of(tasks[b].priority);
    if ra != rb {
        return ra < rb;
    }
    match (&dues[a], &dues[b]) {
        (None, Some(_)) => true,
        (Some(_), None) => false,
        (None, None) => a < b,
        (Some(x), Some(y)) => {
            if crate::database::task_query::lex_less(x, y) {
                true
            } else if crate::database::task_query::lex_less(y, x) {
                false
            } else {
                proof {
                    lemma_lex_total(x@, y@);
                }
                a < b
            }
        },
    }
}

fn due_chars(t: &Task) -> (r: Option<Vec<char>>)
    ensures
        match r {
            Some(v) => opt_text_view(t.due_at) == Some(v@),
            None => opt_text_view(t.due_at) is None,
        },
{
    match &t.due_at {
        Some(s) => Some(crate::text::chars_of(s.as_str())),
        None => None,
    }
}

/// The positions of the pending tasks in the order the context lists them.
pub fn order_pending(tasks: &Vec<Task>, now: Instant) -> (r: Vec<usize>)
    ensures
        is_pending_order(tasks@, now, r@),
{
    proof {
        lemma_pending_order(tasks@, now);
    }
    let n = tasks.len();
    let mut dues: Vec<Option<Vec<char>>> = Vec::new();
    let mut passed: Vec<bool> = Vec::new();
    let mut k: usize = 0;
    while k < n
        invariant
            n == tasks.len(),
            k <= n,
            dues.len() == k,
            passed.len() == k,
            forall|i: int| 0 <= i < k ==> #[trigger] passed@[i] == spec_due_passed(tasks@[i], now),
            forall|i: int|
                0 <= i < k ==> match #[trigger] dues@[i] {
                    Some(v) => opt_text_view(tasks@[i].due_at) == Some(v@),
                    None => opt_text_view(tasks@[i].due_at) is None,
                },
        decreases n - k,
    {
        dues.push(due_chars(&tasks[k]));
        passed.push(due_passed(&tasks[k], now));
        k += 1;
    }
    let mut r: Vec<usize> = Vec::new();
    let mut k: usize = 0;
    while k < n
        invariant
            n == tasks.len(),
            k <= n,
            dues.len() == n,
            passed.len() == n,
            forall|i: int| 0 <= i < n ==> #[trigger] passed@[i] == spec_due_passed(tasks@[i], now),
            forall|i: int|
                0 <= i < n ==> match #[trigger] dues@[i] {
                    Some(v) => opt_text_view(tasks@[i].due_at) == Some(v@),
                    None => opt_text_view(tasks@[i].due_at) is None,
                },
            forall|i: int, j: int, l: int|
                pending_before(tasks@, now, i, j) && pending_before(tasks@, now, j, l) ==> pending_before(
                    tasks@,
                    now,
                    i,
                    l,
                ),
            forall|i: int, j: int| i != j ==> pending_before(tasks@, now, i, j) || pending_before(tasks@, now, j, i),
            forall|i: int, j: int| pending_before(tasks@, now, i, j) ==> !pending_before(tasks@, now, j, i),
            r.len() == k,
            forall|i: int| 0 <= i < r.len() ==> (#[trigger] r@[i] as int) < k,
            forall|m: int| 0 <= m < k ==> #[trigger] r@.contains(m as usize),
            forall|i: int, j: int| 0 <= i < j < r.len() ==> pending_before(tasks@, now, r@[i] as int, r@[j] as int),
        decreases n - k,
    {
        let mut p: usize = 0;
        while p < r.len()
            invariant
                n == tasks.len(),
                k < n,
                dues.len() == n,
                passed.len() == n,
                forall|i: int| 0 <= i < n ==> #[trigger] passed@[i] == spec_due_passed(tasks@[i], now),
                forall|i: int|
                    0 <= i < n ==> match #[trigger] dues@[i] {
                        Some(v) => opt_text_view(tasks@[i].due_at) == Some(v@),
                        None => opt_text_view(tasks@[i].due_at) is None,
                    },
                forall|i: int, j: int| i != j ==> pending_before(tasks@, now, i, j) || pending_before(tasks@, now, j, i),
                p <= r.len(),
                forall|i: int| 0 <= i < r.len() ==> (#[trigger] r@[i] as int) < k,
                forall|i: int| 0 <= i < p ==> pending_before(tasks@, now, r@[i] as int, k as int),
            ensures
                p <= r.len(),
                forall|i: int| 0 <= i < p ==> pending_before(tasks@, now, r@[i] as int, k as int),
                p < r.len() ==> pending_before(tasks@, now, k as int, r@[p as int] as int),
            decreases r.len() - p,
        {
            let j = r[p];
            if goes_before(tasks, &dues, &passed, now, k, j) {
                break;
            }
            p += 1;
        }
        let ghost old_r = r@;
        r.insert(p, k);
        proof {
            assert(r@ == old_r.insert(p as int, k));
            assert forall|m: int| 0 <= m < k + 1 implies #[trigger] r@.contains(m as usize) by {
                if m < k {
                    assert(old_r.contains(m as usize));
                    let w = choose|w: int| 0 <= w < old_r.len() && old_r[w] == m as usize;
                    if w < p {
                        assert(r@[w] == m as usize);
                    } else {
                        assert(r@[w + 1] == m as usize);
                    }
                } else {
                    assert(r@[p as int] == k);
                }
            }
            assert forall|i: int| 0 <= i < r.len() implies (#[trigger] r@[i] as int) < k + 1 by {
                if i < p {
                    assert(r@[i] == old_r[i]);
                } else if i > p {
                    assert(r@[i] == old_r[i - 1]);
                }
            }
            assert forall|i: int, j: int|
                0 <= i < j < r.len() implies pending_before(tasks@, now, r@[i] as int, r@[j] as int) by {
                let oi: int = if i < p { i } else { i - 1 };
                let oj: int = if j < p { j } else { j - 1 };
                if i == p {
                    assert(r@[j] == old_r[oj]);
                    if oj > p {
                        assert(pending_before(tasks@, now, old_r[p as int] as int, old_r[oj] as int));
                    }
                } else if j == p {
                    assert(r@[i] == old_r[oi]);
                } else {
                    assert(r@[i] == old_r[oi]);
                    assert(r@[j] == old_r[oj]);
                }
            }
        }
        k += 1;
    }
    r
}

/// One line of the pending list: title, priority, whether it is overdue, and the
/// due time in local time when there is one.
pub open spec fn spec_pending_line(t: Task, overdue: bool, due_text: Option<Seq<char>>) -> Seq<char> {
    "「"@ + t.title@ + "」（"@ + spec_priority_label(t.priority) + "优先级"@ + (if overdue {
        "（已逾期）"@
    } else {
        Seq::empty()
    }) + match due_text {
        Some(d) => "，截止 "@ + d,
        None => Seq::empty(),
    } + "）"@
}

pub fn pending_line(t: &Task, overdue: bool, due_text: &Option<String>) -> (r: String)
    ensures
        r@ == spec_pending_line(*t, overdue, opt_string_view(*due_text)),
{
    let mut out = String::from_str("「");
    out.append(t.title.as_str());
    out.append("」（");
    out.append(priority_label(t.priority));
    out.append("优先级");
    if overdue {
        out.append("（已逾期）");
    }
    if let Some(d) = due_text {
        out.append("，截止 ");
        out.append(d.as_str());
    }
    out.append("）");
    proof {
        assert(out@ =~= spec_pending_line(*t, overdue, opt_string_view(*due_text)));
    }
    out
}

/// At most this many pending tasks are listed.
pub const MAX_PENDING_LINES: usize = 5;

/// The lines for the first five pending tasks in list order `ord`, with the given
/// local renderings of each task's due time.
pub open spec fn spec_pending_lines(
    tasks: Seq<Task>,
    now: Instant,
    ord: Seq<usize>,
    dues: Seq<Option<Seq<char>>>,
) -> Seq<Seq<char>> {
    let m = if tasks.len() < MAX_PENDING_LINES { tasks.len() as int } else { MAX_PENDING_LINES as int };
    Seq::new(
        m as nat,
        |i: int|
            spec_pending_line(tasks[ord[i] as int], spec_due_passed(tasks[ord[i] as int], now), dues[ord[i] as int]),
    )
}

/// Each task has a rendering of its due time exactly when its stamp parses.
pub open spec fn dues_fit(tasks: Seq<Task>, dues: Seq<Option<Seq<char>>>) -> bool {
    &&& dues.len() == tasks.len()
    &&& forall|i: int| 0 <= i < tasks.len() ==> (#[trigger] dues[i] is Some <==> opt_parses(tasks[i].due_at))
}

pub open spec fn strings_view(v: Seq<String>) -> Seq<Seq<char>> {
    v.map_values(|s: String| s@)
}

pub open spec fn opt_strings_view(v: Seq<Option<String>>) -> Seq<Option<Seq<char>>> {
    v.map_values(|s: Option<String>| opt_string_view(s))
}

fn local_due_text(t: &Task) -> (r: Option<String>)
    ensures
        r is Some <==> opt_parses(t.due_at),
{
    match &t.due_at {
        Some(s) => crate::time::local_month_day_time(s.as_str(), crate::time::MONTH_DAY_TIME_FORMAT),
        None => None,
    }
}

/// The lines for the first five pending tasks (overdue first, then by priority,
/// then by due stamp), given each task's due time in local time.
pub fn pending_lines_with(pending: &Vec<Task>, now: Instant, dues: &Vec<Option<String>>) -> (r: Vec<String>)
    requires
        dues.len() == pending.len(),
    ensures
        exists|ord: Seq<usize>|
            #![trigger is_pending_order(pending@, now, ord)]
            is_pending_order(pending@, now, ord) && strings_view(r@) == spec_pending_lines(
                pending@,
                now,
                ord,
                opt_strings_view(dues@),
            ),
{
    let ord = order_pending(pending, now);
    let m = if ord.len() < MAX_PENDING_LINES { ord.len() } else { MAX_PENDING_LINES };
    let ghost want = spec_pending_lines(pending@, now, ord@, opt_strings_view(dues@));
    let mut out: Vec<String> = Vec::new();
    let mut i: usize = 0;
    while i < m
        invariant
            is_pending_order(pending@, now, ord@),
            dues.len() == pending.len(),
            want == spec_pending_lines(pending@, now, ord@, opt_strings_view(dues@)),
            m == want.len(),
            m <= ord.len(),
            i <= m,
            strings_view(out@) == want.take(i as int),
        decreases m - i,
    {
        let j = ord[i];
        let t = &pending[j];
        let line = pending_line(t, due_passed(t, now), &dues[j]);
        let ghost before = strings_view(out@);
        out.push(line);
        proof {
            assert(strings_view(out@) =~= before.push(want[i as int]));
            assert(want.take(i + 1) =~= want.take(i as int).push(want[i as int]));
        }
        i += 1;
    }
    proof {
        assert(want.take(m as int) =~= want);
    }
    out
}

/// The lines for the first five pending tasks, their due times rendered in local
/// time through chrono.
pub fn pending_lines(pending: &Vec<Task>, now: Instant) -> (r: Vec<String>)
    ensures
        exists|ord: Seq<usize>, dues: Seq<Option<Seq<char>>>|
            #![trigger is_pending_order(pending@, now, ord), dues_fit(pending@, dues)]
            is_pending_order(pending@, now, ord) && dues_fit(pending@, dues) && strings_view(r@)
                == spec_pending_lines(pending@, now, ord, dues),
{
    let mut dues: Vec<Option<String>> = Vec::new();
    let mut i: usize = 0;
    while i < pending.len()
        invariant
            i <= pending.len(),
            dues.len() == i,
            forall|k: int| 0 <= k < i ==> (#[trigger] dues@[k] is Some <==> opt_parses(pending@[k].due_at)),
        decreases pending.len() - i,
    {
        dues.push(local_due_text(&pending[i]));
        i += 1;
    }
    let r = pending_lines_with(pending, now, &dues);
    proof {
        let dv = opt_strings_view(dues@);
        assert(dues_fit(pending@, dv)) by {
            assert forall|k: int| 0 <= k < pending.len() implies (#[trigger] dv[k] is Some <==> opt_parses(
                pending@[k].due_at,
            )) by {
                assert(dues@[k] is Some <==> opt_parses(pending@[k].due_at));
            }
        }
        let ord = choose|ord: Seq<usize>|
            #![trigger is_pending_order(pending@, now, ord)]
            is_pending_order(pending@, now, ord) && strings_view(r@) == spec_pending_lines(pending@, now, ord, dv);
        assert(is_pending_order(pending@, now, ord) && dues_fit(pending@, dv));
    }
    r
}

/// The pending tasks (to do or in progress), in order.
pub open spec fn pending_of(tasks: Seq<Task>) -> Seq<Task>
    decreases tasks.len(),
{
    if tasks.len() == 0 {
        Seq::empty()
    } else {
        let prev = pending_of(tasks.drop_last());
        if spec_is_pending(tasks.last()) { prev.push(tasks.last()) } else { prev }
    }
}

/// How many pending tasks are overdue.
pub open spec fn count_overdue(tasks: Seq<Task>, now: Instant) -> nat
    decreases tasks.len(),
{
    if tasks.len() == 0 {
        0
    } else {
        count_overdue(tasks.drop_last(), now) + if spec_is_pending(tasks.last()) && spec_due_passed(
            tasks.last(),
            now,
        ) {
            1nat
        } else {
            0nat
        }
    }
}

/// How many tasks are completed.
pub open spec fn count_completed(tasks: Seq<Task>) -> nat
    decreases tasks.len(),
{
    if tasks.len() == 0 {
        0
    } else {
        count_completed(tasks.drop_last()) + if tasks.last().status == TaskStatus::Completed {
            1nat
        } else {
            0nat
        }
    }
}

/// Each line on a line of its own, indented by two spaces.
pub open spec fn indented_lines(lines: Seq<Seq<char>>) -> Seq<char>
    decreases lines.len(),
{
    if lines.len() == 0 {
        Seq::empty()
    } else {
        indented_lines(lines.drop_last()) + "\n  "@ + lines.last()
    }
}

/// Division rounded toward zero, as Rust's `/` on integers.
pub open spec fn trunc_div(a: int, b: int) -> int {
    if a >= 0 { a / b } else { -((-a) / b) }
}

/// The context block of the system prompt: counts of pending, overdue and
/// completed tasks, the first pending tasks (or that there are none), and today's
/// focus time in whole minutes.
pub open spec fn spec_context_text(
    pending: nat,
    overdue: nat,
    completed: nat,
    lines: Seq<Seq<char>>,
    focus_seconds: int,
) -> Seq<char> {
    "- 今日待办 "@ + spec_dec_nat(pending) + " 个（其中逾期 "@ + spec_dec_nat(overdue) + " 个），累计已完成 "@
        + spec_dec_nat(completed) + " 个"@ + (if pending == 0 {
        "\n- 待办列表是空的"@
    } else {
        "\n- 最靠前的几件事："@ + indented_lines(lines)
    }) + "\n- 今日专注 "@ + spec_dec(trunc_div(focus_seconds, 60)) + " 分钟"@
}

pub fn context_text(
    pending: usize,
    overdue: usize,
    completed: usize,
    lines: &Vec<String>,
    focus_seconds: i64,
) -> (r: String)
    ensures
        r@ == spec_context_text(pending as nat, overdue as nat, completed as nat, strings_view(lines@), focus_seconds as int),
{
    let p = crate::text::u64_to_string(pending as u64);
    let o = crate::text::u64_to_string(overdue as u64);
    let c = crate::text::u64_to_string(completed as u64);
    let mut out = String::from_str("- 今日待办 ");
    out.append(p.as_str());
    out.append(" 个（其中逾期 ");
    out.append(o.as_str());
    out.append(" 个），累计已完成 ");
    out.append(c.as_str());
    out.append(" 个");
    let ghost head = out@;
    if pending == 0 {
        out.append("\n- 待办列表是空的");
    } else {
        out.append("\n- 最靠前的几件事：");
        let ghost start = out@;
        let mut i: usize = 0;
        while i < lines.len()
            invariant
                i <= lines.len(),
                out@ == start + indented_lines(strings_view(lines@).take(i as int)),
            decreases lines.len() - i,
        {
            out.append("\n  ");
            out.append(lines[i].as_str());
            proof {
                let lv = strings_view(lines@);
                assert(lv.take(i + 1).drop_last() =~= lv.take(i as int));
            }
            i += 1;
        }
        assert(strings_view(lines@).take(lines.len() as int) =~= strings_view(lines@));
    }
    let minutes: i64 = if focus_seconds >= 0 { focus_seconds / 60 } else { -((-(focus_seconds as i128) / 60) as i64) };
    let m = crate::text::i64_to_string(minutes);
    out.append("\n- 今日专注 ");
    out.append(m.as_str());
    out.append(" 分钟");
    proof {
        assert(out@ =~= spec_context_text(
            pending as nat,
            overdue as nat,
            completed as nat,
            strings_view(lines@),
            focus_seconds as int,
        ));
    }
    out
}

pub open spec fn rev_seq<A>(s: Seq<A>) -> Seq<A> {
    Seq::new(s.len(), |i: int| s[s.len() - 1 - i])
}

/// The pending tasks of the list, moved out in order.
fn take_pending(tasks: Vec<Task>) -> (r: Vec<Task>)
    ensures
        r@ == pending_of(tasks@),
{
    let ghost all = tasks@;
    let mut rest = tasks;
    let mut rev: Vec<Task> = Vec::new();
    while rest.len() > 0
        invariant
            pending_of(all) == pending_of(rest@) + rev_seq(rev@),
        decreases rest.len(),
    {
        let ghost before_rest = rest@;
        let ghost before_rev = rev@;
        let x = rest.pop().unwrap();
        assert(before_rest.drop_last() == rest@ && before_rest.last() == x);
        if crate::database::task_query::is_pending(&x) {
            rev.push(x);
            assert(rev_seq(rev@) =~= seq![x] + rev_seq(before_rev));
            assert(pending_of(before_rest) == pending_of(rest@).push(x));
            assert(pending_of(all) =~= pending_of(rest@) + rev_seq(rev@));
        }
    }
    assert(pending_of(rest@) =~= Seq::<Task>::empty());
    let mut out: Vec<Task> = Vec::new();
    assert(pending_of(all) =~= out@ + rev_seq(rev@));
    while rev.len() > 0
        invariant
            pending_of(all) == out@ + rev_seq(rev@),
        decreases rev.len(),
    {
        let ghost before_rev = rev@;
        let ghost before_out = out@;
        let x = rev.pop().unwrap();
        assert(before_rev.drop_last() == rev@ && before_rev.last() == x);
        out.push(x);
        assert(rev_seq(before_rev) =~= seq![x] + rev_seq(rev@));
        assert(pending_of(all) =~= out@ + rev_seq(rev@));
    }
    assert(rev_seq(rev@) =~= Seq::<Task>::empty());
    assert(pending_of(all) =~= out@);
    out
}

/// The context block for a task list, the current time and today's focus seconds;
/// the due times of the listed tasks are rendered in local time.
pub fn local_context(tasks: Vec<Task>, now: Instant, focus_seconds: i64) -> (r: String)
    ensures
        exists|ord: Seq<usize>, dues: Seq<Option<Seq<char>>>|
            #![trigger is_pending_order(pending_of(tasks@), now, ord), dues_fit(pending_of(tasks@), dues)]
            is_pending_order(pending_of(tasks@), now, ord) && dues_fit(pending_of(tasks@), dues) && r@
                == spec_context_text(
                pending_of(tasks@).len(),
                count_overdue(tasks@, now),
                count_completed(tasks@),
                spec_pending_lines(pending_of(tasks@), now, ord, dues),
                focus_seconds as int,
            ),
{
    let ghost all = tasks@;
    let mut overdue: usize = 0;
    let mut completed: usize = 0;
    let mut i: usize = 0;
    while i < tasks.len()
        invariant
            all == tasks@,
            i <= tasks.len(),
            overdue == count_overdue(all.take(i as int), now),
            completed == count_completed(all.take(i as int)),
            overdue <= i,
            completed <= i,
        decreases tasks.len() - i,
    {
        assert(all.take(i + 1).drop_last() =~= all.take(i as int));
        let t = &tasks[i];
        if crate::database::task_query::is_pending(t) && due_passed(t, now) {
            overdue += 1;
        }
        match t.status {
            TaskStatus::Completed => {
                completed += 1;
            },
            _ => {},
        }
        i += 1;
    }
    assert(all.take(all.len() as int) =~= all);
    let pending = take_pending(tasks);
    let lines = pending_lines(&pending, now);
    context_text(pending.len(), overdue, completed, &lines, focus_seconds)
}

/// The context block from the database: the task list, and the focus seconds
/// completed since local midnight.
pub fn build_local_context(conn: &rusqlite::Connection) -> (r: Result<String, String>)
    ensures
        r matches Err(e) ==> "查询任务失败: "@.is_prefix_of(e@) || "统计专注时长失败: "@.is_prefix_of(e@),
        r is Ok ==> exists|ts: Seq<Task>, now: Instant, f: i64| #[trigger] is_local_context(r->Ok_0@, ts, now, f),
{
    let tasks = crate::database::task_repo::list(conn)?;
    let now = crate::time::now();
    let midnight = crate::time::local_day_start_rfc3339(crate::time::today_local());
    let focus = crate::database::focus_repo::completed_seconds_since(conn, midnight.as_str())?;
    let ghost ts = tasks@;
    let out = local_context(tasks, now, focus);
    let r: Result<String, String> = Ok(out);
    assert(is_local_context(r->Ok_0@, ts, now, focus));
    r
}

/// `s` is the context block `local_context` writes for the tasks `tasks` (the stored
/// list), the time `now` and `focus` seconds of focus today.
pub open spec fn is_local_context(s: Seq<char>, tasks: Seq<Task>, now: Instant, focus: i64) -> bool {
    exists|ord: Seq<usize>, dues: Seq<Option<Seq<char>>>|
        #![trigger is_pending_order(pending_of(tasks), now, ord), dues_fit(pending_of(tasks), dues)]
        is_pending_order(pending_of(tasks), now, ord) && dues_fit(pending_of(tasks), dues) && s == spec_context_text(
            pending_of(tasks).len(),
            count_overdue(tasks, now),
            count_completed(tasks),
            spec_pending_lines(pending_of(tasks), now, ord, dues),
            focus as int,
        )
}

} // verus!
