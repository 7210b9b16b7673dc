//! What the UI shows of a conversation: the execution steps of a run (one
//! per tool call the model made, one per tool result), and the chat
//! messages (the user's texts and the assistant's answers).
use vstd::prelude::*;
use crate::fmt::{dec, dec_string};
use crate::gateway::{truncate_for_step, truncate_for_step_spec, ExecutionStep};
use crate::json::{json_array_len, json_array_len_at, json_error, json_parse_error, json_str, json_text};
use crate::strmap::StrMap;
use crate::text::{chars_of, owned, push_str, str_is, str_trim, trim_seq};

verus! {

/// A message of a conversation: its role and its content.
pub struct ChatMessage {
    pub role: String,
    pub content: String,
}

/// A text, or a default when absent.
pub open spec fn text_or(o: Option<Seq<char>>, d: Seq<char>) -> Seq<char> {
    match o {
        Some(v) => v,
        None => d,
    }
}

/// The pointer to a field of the `i`-th tool call.
pub open spec fn call_field(i: nat, field: Seq<char>) -> Seq<char> {
    "/tool_calls/"@ + dec(i) + "/"@ + field
}

/// The tool names by call id, and the steps (title and detail), after the
/// first `k` tool calls of an assistant message: each call names its tool
/// (default "unknown_tool") under its id (default "-") and adds a step with
/// its arguments.
pub open spec fn calls_fold(
    json: Seq<char>,
    k: nat,
    names: Map<Seq<char>, Seq<char>>,
    steps: Seq<(Seq<char>, Seq<char>)>,
) -> (Map<Seq<char>, Seq<char>>, Seq<(Seq<char>, Seq<char>)>)
    decreases k,
{
    if k == 0 {
        (names, steps)
    } else {
        let prev = calls_fold(json, (k - 1) as nat, names, steps);
        let id = text_or(json_text(json, call_field((k - 1) as nat, "id"@)), "-"@);
        let name = text_or(json_text(json, call_field((k - 1) as nat, "name"@)), "unknown_tool"@);
        let args = text_or(json_text(json, call_field((k - 1) as nat, "arguments"@)), ""@);
        (prev.0.insert(id, name), prev.1.push(("调用工具："@ + name, truncate_for_step_spec(args, 240))))
    }
}

/// The effect of one message: an assistant message adds its tool calls, a
/// tool message adds its result under the name of its call; anything else,
/// and any content that is not JSON, adds nothing.
pub open spec fn message_fold(
    m: ChatMessage,
    names: Map<Seq<char>, Seq<char>>,
    steps: Seq<(Seq<char>, Seq<char>)>,
) -> (Map<Seq<char>, Seq<char>>, Seq<(Seq<char>, Seq<char>)>) {
    let c = m.content@;
    if m.role@ == "assistant"@ {
        if json_parse_error(c) is None && json_array_len_at(c, "/tool_calls"@) is Some {
            calls_fold(c, json_array_len_at(c, "/tool_calls"@)->0 as nat, names, steps)
        } else {
            (names, steps)
        }
    } else if m.role@ == "tool"@ {
        if json_parse_error(c) is None {
            let id = text_or(json_text(c, "/tool_call_id"@), "-"@);
            let name = if names.contains_key(id) {
                names[id]
            } else {
                "unknown_tool"@
            };
            let content = text_or(json_text(c, "/content"@), ""@);
            (names, steps.push(("工具完成："@ + name, truncate_for_step_spec(content, 300))))
        } else {
            (names, steps)
        }
    } else {
        (names, steps)
    }
}

/// The names and steps after the first `k` messages.
pub open spec fn messages_fold(messages: Seq<ChatMessage>, k: nat) -> (
    Map<Seq<char>, Seq<char>>,
    Seq<(Seq<char>, Seq<char>)>,
)
    decreases k,
{
    if k == 0 {
        (Map::empty(), seq![])
    } else {
        let prev = messages_fold(messages, (k - 1) as nat);
        message_fold(messages[k - 1], prev.0, prev.1)
    }
}

/// Whether `s` is a finished step with this title and detail.
pub open spec fn done_step(s: ExecutionStep, title: Seq<char>, detail: Seq<char>) -> bool {
    &&& s.title@ == title
    &&& s.status@ == "done"@
    &&& s.detail matches Some(d) && d@ == detail
    &&& s.run_events@.len() == 0
}

/// Whether the steps are these titles and details, in order.
pub open spec fn steps_are(v: Seq<ExecutionStep>, s: Seq<(Seq<char>, Seq<char>)>) -> bool {
    &&& v.len() == s.len()
    &&& forall|i: int| 0 <= i < v.len() ==> done_step(#[trigger] v[i], s[i].0, s[i].1)
}

/// Whether the map holds these names.
pub open spec fn names_are(m: Map<Seq<char>, String>, names: Map<Seq<char>, Seq<char>>) -> bool {
    &&& forall|k: Seq<char>| #[trigger] m.contains_key(k) <==> names.contains_key(k)
    &&& forall|k: Seq<char>| m.contains_key(k) ==> (#[trigger] m[k])@ == names[k]
}

fn text_or_exec(o: Option<String>, d: &str) -> (r: String)
    ensures
        r@ == text_or(
            match o {
                Some(v) => Some(v@),
                None => None,
            },
            d@,
        ),
{
    match o {
        Some(v) => v,
        None => owned(d),
    }
}

fn call_field_exec(i: usize, field: &str) -> (r: String)
    ensures
        r@ == call_field(i as nat, field@),
{
    let mut p = owned("/tool_calls/");
    let n = dec_string(i as u64);
    push_str(&mut p, n.as_str());
    push_str(&mut p, "/");
    push_str(&mut p, field);
    p
}

fn push_step(steps: &mut Vec<ExecutionStep>, title: &str, detail: &str)
    ensures
        final(steps)@.len() == old(steps)@.len() + 1,
        forall|i: int| 0 <= i < old(steps)@.len() ==> final(steps)@[i] == old(steps)@[i],
        done_step(final(steps)@[old(steps)@.len() as int], title@, detail@),
{
    steps.push(ExecutionStep::done(title, detail));
}

fn add_calls(
    json: &str,
    names: &mut StrMap<String>,
    steps: &mut Vec<ExecutionStep>,
    Ghost(names0): Ghost<Map<Seq<char>, Seq<char>>>,
    Ghost(steps0): Ghost<Seq<(Seq<char>, Seq<char>)>>,
)
    requires
        names_are(old(names)@, names0),
        steps_are(old(steps)@, steps0),
        json_parse_error(json@) is None,
        json_array_len_at(json@, "/tool_calls"@) is Some,
    ensures
        ({
            let r = calls_fold(json@, json_array_len_at(json@, "/tool_calls"@)->0 as nat, names0, steps0);
            names_are(final(names)@, r.0) && steps_are(final(steps)@, r.1)
        }),
{
    let n = match json_array_len(json, "/tool_calls") {
        Some(n) => n,
        None => return ,
    };
    let mut i: usize = 0;
    while i < n
        invariant
            i <= n,
            n == json_array_len_at(json@, "/tool_calls"@)->0,
            ({
                let r = calls_fold(json@, i as nat, names0, steps0);
                names_are(names@, r.0) && steps_are(steps@, r.1)
            }),
        decreases n - i,
    {
        let ghost before = calls_fold(json@, i as nat, names0, steps0);
        let id = text_or_exec(json_str(json, call_field_exec(i, "id").as_str()), "-");
        let name = text_or_exec(json_str(json, call_field_exec(i, "name").as_str()), "unknown_tool");
        let args = text_or_exec(json_str(json, call_field_exec(i, "arguments").as_str()), "");
        let mut title = owned("调用工具：");
        push_str(&mut title, name.as_str());
        let detail = truncate_for_step(args.as_str(), 240);
        let ghost old_steps = steps@;
        push_step(steps, title.as_str(), detail.as_str());
        let ghost old_names = names@;
        names.insert(id.as_str(), name);
        proof {
            let after = calls_fold(json@, (i + 1) as nat, names0, steps0);
            assert(after.1 == before.1.push((title@, detail@)));
            assert forall|j: int| 0 <= j < steps@.len() implies done_step(
                #[trigger] steps@[j],
                after.1[j].0,
                after.1[j].1,
            ) by {
                if j < old_steps.len() {
                    assert(steps@[j] == old_steps[j]);
                }
            }
            assert forall|k: Seq<char>| names@.contains_key(k) implies (#[trigger] names@[k])@
                == after.0[k] by {
                if k != id@ {
                    assert(names@[k] == old_names[k]);
                }
            }
        }
        i += 1;
    }
}

fn add_tool_result(
    json: &str,
    names: &StrMap<String>,
    steps: &mut Vec<ExecutionStep>,
    Ghost(names0): Ghost<Map<Seq<char>, Seq<char>>>,
    Ghost(steps0): Ghost<Seq<(Seq<char>, Seq<char>)>>,
)
    requires
        names_are(names@, names0),
        steps_are(old(steps)@, steps0),
    ensures
        ({
            let id = text_or(json_text(json@, "/tool_call_id"@), "-"@);
            let name = if names0.contains_key(id) {
                names0[id]
            } else {
                "unknown_tool"@
            };
            let content = text_or(json_text(json@, "/content"@), ""@);
            steps_are(
                final(steps)@,
                steps0.push(("工具完成："@ + name, truncate_for_step_spec(content, 300))),
            )
        }),
{
    let id = text_or_exec(json_str(json, "/tool_call_id"), "-");
    let name = match names.get_text(id.as_str()) {
        Some(n) => n,
        None => owned("unknown_tool"),
    };
    let content = text_or_exec(json_str(json, "/content"), "");
    let mut title = owned("工具完成：");
    push_str(&mut title, name.as_str());
    let detail = truncate_for_step(content.as_str(), 300);
    let ghost old_steps = steps@;
    push_step(steps, title.as_str(), detail.as_str());
    proof {
        let target = steps0.push((title@, detail@));
        assert forall|j: int| 0 <= j < steps@.len() implies done_step(
            #[trigger] steps@[j],
            target[j].0,
            target[j].1,
        ) by {
            if j < old_steps.len() {
                assert(steps@[j] == old_steps[j]);
            }
        }
    }
}

/// The steps of a run's messages: each tool call of an assistant message,
/// titled with its tool and detailed with its arguments (at most 240
/// characters), and each tool result, titled with the tool of its call and
/// detailed with its content (at most 300 characters).
pub fn extract_tool_steps(messages: &[ChatMessage]) -> (r: Vec<ExecutionStep>)
    ensures
        steps_are(r@, messages_fold(messages@, messages@.len()).1),
{
    let mut steps: Vec<ExecutionStep> = Vec::new();
    let mut names: StrMap<String> = StrMap::new();
    let mut i: usize = 0;
    while i < messages.len()
        invariant
            i <= messages@.len(),
            ({
                let r = messages_fold(messages@, i as nat);
                names_are(names@, r.0) && steps_are(steps@, r.1)
            }),
        decreases messages.len() - i,
    {
        let ghost before = messages_fold(messages@, i as nat);
        let m = &messages[i];
        assert(messages@[i as int] == *m);
        let content = m.content.as_str();
        if str_is(m.role.as_str(), "assistant") {
            if json_error(content).is_none() {
                if json_array_len(content, "/tool_calls").is_some() {
                    add_calls(content, &mut names, &mut steps, Ghost(before.0), Ghost(before.1));
                }
            }
        } else if str_is(m.role.as_str(), "tool") {
            if json_error(content).is_none() {
                add_tool_result(content, &names, &mut steps, Ghost(before.0), Ghost(before.1));
            }
        }
        i += 1;
    }
    assert(messages@.len() == i);
    steps
}

// ---------------------------------------------------------------------------
// Chat messages for the UI
// ---------------------------------------------------------------------------

/// A chat message as the UI shows it.
pub struct GatewayChatMessage {
    pub role: String,
    pub content: String,
    pub agent: Option<String>,
}

/// The text of an assistant message for the UI. A JSON message shows its
/// non-blank `content` (trimmed); a JSON message that only calls tools
/// shows nothing; otherwise the trimmed text shows, unless it is blank or
/// looks like JSON (starts with '{').
pub open spec fn assistant_text_spec(content: Seq<char>) -> Option<Seq<char>> {
    let parsed = json_parse_error(content) is None;
    let text = match json_text(content, "/content"@) {
        Some(t) => if trim_seq(t).len() > 0 {
            Some(trim_seq(t))
        } else {
            None
        },
        None => None,
    };
    let calls_tools = json_array_len_at(content, "/tool_calls"@) matches Some(n) && n > 0;
    if parsed && text is Some {
        text
    } else if parsed && calls_tools {
        None
    } else if trim_seq(content).len() == 0 || trim_seq(content)[0] == '{' {
        None
    } else {
        Some(trim_seq(content))
    }
}

fn trimmed_owned(s: &str) -> (r: String)
    ensures
        r@ == trim_seq(s@),
{
    owned(str_trim(s))
}

/// The text of an assistant message for the UI, if it shows.
pub fn assistant_text_for_ui(content: &str) -> (r: Option<String>)
    ensures
        match r {
            Some(t) => assistant_text_spec(content@) == Some(t@),
            None => assistant_text_spec(content@) is None,
        },
{
    if json_error(content).is_none() {
        let calls_tools = match json_array_len(content, "/tool_calls") {
            Some(n) => n > 0,
            None => false,
        };
        if let Some(t) = json_str(content, "/content") {
            let tt = trimmed_owned(t.as_str());
            if tt.as_str().unicode_len() > 0 {
                return Some(tt);
            }
        }
        if calls_tools {
            return None;
        }
    }
    let trimmed = trimmed_owned(content);
    let c = chars_of(trimmed.as_str());
    if c.len() == 0 || c[0] == '{' {
        return None;
    }
    Some(trimmed)
}

/// The chat message a conversation message becomes in the UI, if any: a
/// non-blank user message as it is, an assistant message by its text.
pub open spec fn chat_ui_message(m: ChatMessage) -> Option<(Seq<char>, Seq<char>)> {
    if m.role@ == "user"@ {
        if trim_seq(m.content@).len() > 0 {
            Some(("user"@, m.content@))
        } else {
            None
        }
    } else if m.role@ == "assistant"@ {
        match assistant_text_spec(m.content@) {
            Some(t) => Some(("assistant"@, t)),
            None => None,
        }
    } else {
        None
    }
}

/// The UI messages of the first `k` conversation messages.
pub open spec fn chat_ui_messages(ms: Seq<ChatMessage>, k: nat) -> Seq<(Seq<char>, Seq<char>)>
    decreases k,
{
    if k == 0 {
        seq![]
    } else {
        match chat_ui_message(ms[k - 1]) {
            Some(m) => chat_ui_messages(ms, (k - 1) as nat).push(m),
            None => chat_ui_messages(ms, (k - 1) as nat),
        }
    }
}

/// Whether UI messages are these roles and contents, without agents.
pub open spec fn ui_messages_are(v: Seq<GatewayChatMessage>, s: Seq<(Seq<char>, Seq<char>)>) -> bool {
    &&& v.len() == s.len()
    &&& forall|i: int|
        0 <= i < v.len() ==> (#[trigger] v[i]).role@ == s[i].0 && v[i].content@ == s[i].1
            && v[i].agent is None
}

/// The chat messages the UI shows for a conversation.
pub fn messages_for_chat_ui(messages: &[ChatMessage]) -> (r: Vec<GatewayChatMessage>)
    ensures
        ui_messages_are(r@, chat_ui_messages(messages@, messages@.len())),
{
    let mut out: Vec<GatewayChatMessage> = Vec::new();
    let mut i: usize = 0;
    while i < messages.len()
        invariant
            i <= messages@.len(),
            ui_messages_are(out@, chat_ui_messages(messages@, i as nat)),
        decreases messages.len() - i,
    {
        let m = &messages[i];
        assert(messages@[i as int] == *m);
        let ghost before = out@;
        if str_is(m.role.as_str(), "user") {
            if crate::text::trimmed_chars(m.content.as_str()).len() > 0 {
                out.push(
                    GatewayChatMessage { role: owned("user"), content: m.content.clone(), agent: None },
                );
            }
        } else if str_is(m.role.as_str(), "assistant") {
            if let Some(text) = assistant_text_for_ui(m.content.as_str()) {
                out.push(GatewayChatMessage { role: owned("assistant"), content: text, agent: None });
            }
        }
        proof {
            assert forall|j: int| 0 <= j < before.len() implies out@[j] == before[j] by {}
        }
        i += 1;
    }
    out
}

} // verus!
