//! The reply outbox: which replies can be rebuilt for a retry (never a
//! free-form model reply), how they are rebuilt, and how a send's outcome is
//! recorded.
use vstd::prelude::*;
use crate::fmt::{dec, idec, push_dec, push_idec};
use crate::gateway::{opt_view, ostr};
use crate::json::{json_bool, json_bool_at, json_error, json_parse_error, json_str, json_text, json_u64, json_u64_at};
use crate::message::{meta_get, meta_lookup, InboundMessage, MetaValue};
use crate::session::ChannelKind;
use crate::text::{owned, push_str, str_is};

verus! {

/// The kind of a recorded reply.
#[derive(Debug, Clone, Copy, PartialEq, Eq)]
pub enum ReplyKind {
    Progress,
    Timeout,
    Failure,
    ChatOnlyBlocked,
    Unsupported,
    MonitorFinal,
    LlmFinal,
    CommandPaletteCard,
    CardActionResult,
    GatewayStatusReply,
    RecentJobsReply,
}

/// The name a reply kind is recorded under.
pub open spec fn kind_name(k: ReplyKind) -> Seq<char> {
    match k {
        ReplyKind::Progress => "progress"@,
        ReplyKind::Timeout => "timeout"@,
        ReplyKind::Failure => "failure"@,
        ReplyKind::ChatOnlyBlocked => "chat_only_blocked"@,
        ReplyKind::Unsupported => "unsupported"@,
        ReplyKind::MonitorFinal => "monitor_final"@,
        ReplyKind::LlmFinal => "llm_final"@,
        ReplyKind::CommandPaletteCard => "command_palette_card"@,
        ReplyKind::CardActionResult => "card_action_result"@,
        ReplyKind::GatewayStatusReply => "gateway_status_reply"@,
        ReplyKind::RecentJobsReply => "recent_jobs_reply"@,
    }
}

impl ReplyKind {
    /// The name the kind is recorded under.
    pub fn as_str(&self) -> (r: &'static str)
        ensures
            r@ == kind_name(*self),
    {
        match self {
            ReplyKind::Progress => "progress",
            ReplyKind::Timeout => "timeout",
            ReplyKind::Failure => "failure",
            ReplyKind::ChatOnlyBlocked => "chat_only_blocked",
            ReplyKind::Unsupported => "unsupported",
            ReplyKind::MonitorFinal => "monitor_final",
            ReplyKind::LlmFinal => "llm_final",
            ReplyKind::CommandPaletteCard => "command_palette_card",
            ReplyKind::CardActionResult => "card_action_result",
            ReplyKind::GatewayStatusReply => "gateway_status_reply",
            ReplyKind::RecentJobsReply => "recent_jobs_reply",
        }
    }

    /// The kind recorded under a name, if any.
    pub fn from_str(s: &str) -> (r: Option<ReplyKind>)
        ensures
            r == kind_from_name(s@),
    {
        if str_is(s, "progress") {
            Some(ReplyKind::Progress)
        } else if str_is(s, "timeout") {
            Some(ReplyKind::Timeout)
        } else if str_is(s, "failure") {
            Some(ReplyKind::Failure)
        } else if str_is(s, "chat_only_blocked") {
            Some(ReplyKind::ChatOnlyBlocked)
        } else if str_is(s, "unsupported") {
            Some(ReplyKind::Unsupported)
        } else if str_is(s, "monitor_final") {
            Some(ReplyKind::MonitorFinal)
        } else if str_is(s, "llm_final") {
            Some(ReplyKind::LlmFinal)
        } else if str_is(s, "command_palette_card") {
            Some(ReplyKind::CommandPaletteCard)
        } else if str_is(s, "card_action_result") {
            Some(ReplyKind::CardActionResult)
        } else if str_is(s, "gateway_status_reply") {
            Some(ReplyKind::GatewayStatusReply)
        } else if str_is(s, "recent_jobs_reply") {
            Some(ReplyKind::RecentJobsReply)
        } else {
            None
        }
    }

    /// Whether a reply of this kind may be sent again: every kind but a
    /// free-form model reply, which is never stored.
    pub fn is_retryable(&self) -> (r: bool)
        ensures
            r == (*self != ReplyKind::LlmFinal),
    {
        match self {
            ReplyKind::LlmFinal => false,
            _ => true,
        }
    }
}

/// The kind recorded under a name.
pub open spec fn kind_from_name(s: Seq<char>) -> Option<ReplyKind> {
    if s == "progress"@ {
        Some(ReplyKind::Progress)
    } else if s == "timeout"@ {
        Some(ReplyKind::Timeout)
    } else if s == "failure"@ {
        Some(ReplyKind::Failure)
    } else if s == "chat_only_blocked"@ {
        Some(ReplyKind::ChatOnlyBlocked)
    } else if s == "unsupported"@ {
        Some(ReplyKind::Unsupported)
    } else if s == "monitor_final"@ {
        Some(ReplyKind::MonitorFinal)
    } else if s == "llm_final"@ {
        Some(ReplyKind::LlmFinal)
    } else if s == "command_palette_card"@ {
        Some(ReplyKind::CommandPaletteCard)
    } else if s == "card_action_result"@ {
        Some(ReplyKind::CardActionResult)
    } else if s == "gateway_status_reply"@ {
        Some(ReplyKind::GatewayStatusReply)
    } else if s == "recent_jobs_reply"@ {
        Some(ReplyKind::RecentJobsReply)
    } else {
        None
    }
}

/// A kind's recorded name reads back as that kind.
pub proof fn lemma_kind_name_roundtrip(k: ReplyKind)
    ensures
        kind_from_name(kind_name(k)) == Some(k),
{
    reveal_strlit("progress");
    reveal_strlit("timeout");
    reveal_strlit("failure");
    reveal_strlit("chat_only_blocked");
    reveal_strlit("unsupported");
    reveal_strlit("monitor_final");
    reveal_strlit("llm_final");
    reveal_strlit("command_palette_card");
    reveal_strlit("card_action_result");
    reveal_strlit("gateway_status_reply");
    reveal_strlit("recent_jobs_reply");
    assert("progress"@[0] == 'p' && "progress"@[1] == 'r');
    assert("timeout"@[0] == 't' && "timeout"@[1] == 'i');
    assert("failure"@[0] == 'f' && "failure"@[1] == 'a');
    assert("chat_only_blocked"@[0] == 'c' && "chat_only_blocked"@[1] == 'h');
    assert("unsupported"@[0] == 'u' && "unsupported"@[1] == 'n');
    assert("monitor_final"@[0] == 'm' && "monitor_final"@[1] == 'o');
    assert("llm_final"@[0] == 'l' && "llm_final"@[1] == 'l');
    assert("command_palette_card"@[0] == 'c' && "command_palette_card"@[1] == 'o');
    assert("card_action_result"@[0] == 'c' && "card_action_result"@[1] == 'a');
    assert("gateway_status_reply"@[0] == 'g' && "gateway_status_reply"@[1] == 'a');
    assert("recent_jobs_reply"@[0] == 'r' && "recent_jobs_reply"@[1] == 'e');
}

/// The monitor result text rebuilt from its recorded JSON: `changed`
/// (false when absent), `duration_secs` (30 when absent), `start_path` and
/// `end_path` ("(unknown)" when absent).
pub open spec fn monitor_final_text(json: Seq<char>) -> Seq<char> {
    let changed = json_bool_at(json, "/changed"@) == Some(true);
    let duration: u64 = match json_u64_at(json, "/duration_secs"@) {
        Some(d) => d,
        None => 30,
    };
    let start = match json_text(json, "/start_path"@) {
        Some(s) => s,
        None => "(unknown)"@,
    };
    let end = match json_text(json, "/end_path"@) {
        Some(s) => s,
        None => "(unknown)"@,
    };
    "桌面监控完成\n监控时长："@ + dec(duration as nat) + " 秒\n截图状态：成功\n变化检测："@ + (if changed {
        "有变化"@
    } else {
        "无明显变化"@
    }) + "\n开始截图："@ + start + "\n结束截图："@ + end
}

/// The reply rebuilt for a kind: a fixed text for the template kinds, the
/// monitor text from the recorded JSON, the recorded `text` for the card
/// kinds; a free-form model reply is never rebuilt.
pub open spec fn reconstruct_spec(kind: ReplyKind, result_json: Option<Seq<char>>) -> Option<Seq<char>> {
    match kind {
        ReplyKind::Progress => Some("已收到监控任务，正在执行。完成后我会在这里返回结果。"@),
        ReplyKind::Timeout => Some("抱歉，任务执行超时。请缩短任务时长后重试。"@),
        ReplyKind::Failure => Some("任务执行失败，请稍后重试。如果问题持续，请联系管理员。"@),
        ReplyKind::ChatOnlyBlocked => Some(
            "当前消息触发了安全限制。请使用 /monitor、/run、/file、/workspace、/agent 等命令明确表达工具意图。"@,
        ),
        ReplyKind::Unsupported => Some("当前消息类型暂不支持自动处理。"@),
        ReplyKind::MonitorFinal => match result_json {
            Some(j) => if json_parse_error(j) is None {
                Some(monitor_final_text(j))
            } else {
                None
            },
            None => None,
        },
        ReplyKind::LlmFinal => None,
        ReplyKind::CommandPaletteCard => Some("[card] OmniNova Agent 功能菜单 - 重建（详细卡片未持久化）"@),
        ReplyKind::CardActionResult | ReplyKind::GatewayStatusReply | ReplyKind::RecentJobsReply => match result_json {
            Some(j) => json_text(j, "/text"@),
            None => None,
        },
    }
}

fn text_or_unknown(json: &str, pointer: &str) -> (r: String)
    ensures
        r@ == match json_text(json@, pointer@) {
            Some(s) => s,
            None => "(unknown)"@,
        },
{
    match json_str(json, pointer) {
        Some(s) => s,
        None => owned("(unknown)"),
    }
}

fn monitor_final_reply(json: &str) -> (r: String)
    ensures
        r@ == monitor_final_text(json@),
{
    let changed = match json_bool(json, "/changed") {
        Some(b) => b,
        None => false,
    };
    let duration: u64 = match json_u64(json, "/duration_secs") {
        Some(d) => d,
        None => 30,
    };
    let start = text_or_unknown(json, "/start_path");
    let end = text_or_unknown(json, "/end_path");
    let mut s = owned("桌面监控完成\n监控时长：");
    push_dec(&mut s, duration);
    push_str(&mut s, " 秒\n截图状态：成功\n变化检测：");
    if changed {
        push_str(&mut s, "有变化");
    } else {
        push_str(&mut s, "无明显变化");
    }
    push_str(&mut s, "\n开始截图：");
    push_str(&mut s, start.as_str());
    push_str(&mut s, "\n结束截图：");
    push_str(&mut s, end.as_str());
    s
}

/// Rebuilds a reply body from its kind and recorded JSON, when it can be.
pub fn reconstruct_reply(kind: ReplyKind, result_json: Option<&str>, chat_only_intent: Option<&str>) -> (r:
    Option<String>)
    ensures
        ostr(r) == reconstruct_spec(kind, opt_view(result_json)),
{
    match kind {
        ReplyKind::Progress => Some(owned("已收到监控任务，正在执行。完成后我会在这里返回结果。")),
        ReplyKind::Timeout => Some(owned("抱歉，任务执行超时。请缩短任务时长后重试。")),
        ReplyKind::Failure => Some(owned("任务执行失败，请稍后重试。如果问题持续，请联系管理员。")),
        ReplyKind::ChatOnlyBlocked => Some(
            owned(
                "当前消息触发了安全限制。请使用 /monitor、/run、/file、/workspace、/agent 等命令明确表达工具意图。",
            ),
        ),
        ReplyKind::Unsupported => Some(owned("当前消息类型暂不支持自动处理。")),
        ReplyKind::MonitorFinal => match result_json {
            Some(j) => if json_error(j).is_none() {
                Some(monitor_final_reply(j))
            } else {
                None
            },
            None => None,
        },
        ReplyKind::LlmFinal => None,
        ReplyKind::CommandPaletteCard => Some(owned("[card] OmniNova Agent 功能菜单 - 重建（详细卡片未持久化）")),
        ReplyKind::CardActionResult | ReplyKind::GatewayStatusReply | ReplyKind::RecentJobsReply => match result_json {
            Some(j) => json_str(j, "/text"),
            None => None,
        },
    }
}

/// The message rebuilt for a retry on `channel` (Feishu or Lark) in chat
/// `chat_id`: no user, the chat as session, an empty text, and the chat id,
/// the conversation id and (when given) the event key as metadata.
pub open spec fn retry_inbound_spec(
    channel: Seq<char>,
    chat_id: Option<Seq<char>>,
    event_key: Option<Seq<char>>,
    m: InboundMessage,
) -> bool {
    &&& m.channel == (if channel == "feishu"@ {
        ChannelKind::Feishu
    } else {
        ChannelKind::Lark
    })
    &&& m.user_id is None
    &&& ostr(m.session_id) == chat_id
    &&& m.text@.len() == 0
    &&& meta_get(m.metadata@, "chat_id"@) == chat_id
    &&& meta_get(m.metadata@, "conversation_id"@) == chat_id
    &&& meta_get(m.metadata@, "event_key"@) == event_key
    &&& m.metadata@.len() == (if event_key is Some {
        3int
    } else {
        2int
    })
}

/// The message a retry is sent for: the recorded chat as session id and as
/// `chat_id` and `conversation_id`, with the event key when recorded. None
/// without a chat, or for another channel than Feishu or Lark.
pub fn reconstruct_inbound_for_retry(channel: &str, chat_id: Option<String>, event_key: Option<String>) -> (r:
    Option<InboundMessage>)
    ensures
        r is Some <==> (chat_id matches Some(c) && c@.len() > 0 && (channel@ == "feishu"@ || channel@
            == "lark"@)),
        r matches Some(m) ==> retry_inbound_spec(channel@, ostr(chat_id), ostr(event_key), m),
{
    let chat = match chat_id {
        Some(c) => if c.as_str().unicode_len() > 0 {
            c
        } else {
            return None;
        },
        None => return None,
    };
    let kind = if str_is(channel, "feishu") {
        ChannelKind::Feishu
    } else if str_is(channel, "lark") {
        ChannelKind::Lark
    } else {
        return None;
    };
    let mut metadata: Vec<(String, MetaValue)> = Vec::new();
    metadata.push((owned("chat_id"), MetaValue::Str(chat.clone())));
    metadata.push((owned("conversation_id"), MetaValue::Str(chat.clone())));
    let ghost two = metadata@;
    match event_key {
        Some(k) => metadata.push((owned("event_key"), MetaValue::Str(k))),
        None => {},
    }
    proof {
        reveal_strlit("chat_id");
        reveal_strlit("conversation_id");
        reveal_strlit("event_key");
        assert("chat_id"@[1] != "conversation_id"@[1]);
        assert("event_key"@[0] != "conversation_id"@[0]);
        assert("event_key"@[0] != "chat_id"@[0]);
        assert(metadata@[0].0@ == "chat_id"@);
        assert(metadata@[1].0@ == "conversation_id"@);
        assert(metadata@.drop_first()[0] == metadata@[1]);
        let md = metadata@;
        assert(meta_lookup(md, "chat_id"@) == Some(md[0].1));
        assert(meta_lookup(md.drop_first(), "conversation_id"@) == Some(md[1].1));
        assert(meta_lookup(md, "conversation_id"@) == Some(md[1].1));
        if md.len() == 3 {
            assert(md.drop_first().drop_first()[0] == md[2]);
            assert(meta_lookup(md.drop_first().drop_first(), "event_key"@) == Some(md[2].1));
            assert(meta_lookup(md.drop_first(), "event_key"@) == Some(md[2].1));
            assert(meta_lookup(md, "event_key"@) == Some(md[2].1));
        } else {
            assert(md.drop_first().drop_first().len() == 0);
            assert(meta_lookup(md.drop_first().drop_first(), "event_key"@) is None);
            assert(meta_lookup(md.drop_first(), "event_key"@) is None);
            assert(meta_lookup(md, "event_key"@) is None);
        }
    }
    let text = String::new();
    assert(text@.len() == 0);
    Some(InboundMessage { channel: kind, user_id: None, session_id: Some(chat), text, metadata })
}

/// What a retry does first: a free-form model reply (or a kind that is not
/// known) cannot be rebuilt and is abandoned; anything else begins a retry.
pub fn retry_abandons(kind: Option<ReplyKind>) -> (r: bool)
    ensures
        r <==> (kind is None || kind == Some(ReplyKind::LlmFinal)),
{
    match kind {
        None => true,
        Some(ReplyKind::LlmFinal) => true,
        Some(_) => false,
    }
}

/// Whether a reply recorded before a restart stays for a later retry: the
/// template kinds and the monitor result do; anything else (a model reply,
/// a card, an unknown kind) is abandoned, its body never having been kept.
pub fn recovery_keeps_outbox(kind: Option<ReplyKind>) -> (r: bool)
    ensures
        r <==> (kind == Some(ReplyKind::Progress) || kind == Some(ReplyKind::Timeout) || kind == Some(
            ReplyKind::Failure,
        ) || kind == Some(ReplyKind::ChatOnlyBlocked) || kind == Some(ReplyKind::Unsupported) || kind
            == Some(ReplyKind::MonitorFinal)),
{
    match kind {
        Some(ReplyKind::Progress) | Some(ReplyKind::Timeout) | Some(ReplyKind::Failure) | Some(
            ReplyKind::ChatOnlyBlocked,
        ) | Some(ReplyKind::Unsupported) | Some(ReplyKind::MonitorFinal) => true,
        _ => false,
    }
}

/// A retry that may go ahead.
pub enum RetryPlan {
    /// The reply cannot be rebuilt or sent: recorded as incomplete, with
    /// this reason.
    Incomplete { reason: &'static str },
    /// Send this reply for this message.
    Send { reply: String, inbound: InboundMessage },
}

/// Plans a retry: the reply must be rebuilt, then the message it answers.
pub fn retry_plan(
    kind: ReplyKind,
    result_json: Option<&str>,
    channel: &str,
    chat_id: Option<String>,
    event_key: Option<String>,
) -> (r: RetryPlan)
    ensures
        reconstruct_spec(kind, opt_view(result_json)) is None ==> (r matches RetryPlan::Incomplete {
            reason,
        } && reason@ == "missing_result_json_or_required_fields"@),
        reconstruct_spec(kind, opt_view(result_json)) is Some && !(chat_id matches Some(c) && c@.len()
            > 0 && (channel@ == "feishu"@ || channel@ == "lark"@)) ==> (r matches RetryPlan::Incomplete {
            reason,
        } && reason@ == "missing_chat_id_for_retry"@),
        r matches RetryPlan::Send { reply, inbound } ==> Some(reply@) == reconstruct_spec(
            kind,
            opt_view(result_json),
        ) && retry_inbound_spec(channel@, ostr(chat_id), ostr(event_key), inbound),
        reconstruct_spec(kind, opt_view(result_json)) is Some && (chat_id matches Some(c) && c@.len()
            > 0 && (channel@ == "feishu"@ || channel@ == "lark"@)) ==> r is Send,
{
    let reply = match reconstruct_reply(kind, result_json, None) {
        Some(s) => s,
        None => return RetryPlan::Incomplete { reason: "missing_result_json_or_required_fields" },
    };
    match reconstruct_inbound_for_retry(channel, chat_id, event_key) {
        Some(inbound) => RetryPlan::Send { reply, inbound },
        None => RetryPlan::Incomplete { reason: "missing_chat_id_for_retry" },
    }
}

/// How sending a reply went.
pub enum SendOutcome {
    /// Delivered, with the platform's message id when it gave one.
    Delivered(Option<String>),
    /// Nothing was sent (outbound disabled, or no target).
    Skipped,
    /// The send failed with this error.
    Failed(String),
    /// The send did not finish in time.
    TimedOut,
}

/// What is recorded on the outbox entry after a send.
pub enum OutboxUpdate {
    /// Sent, with the platform message id ("" when none, "skipped" when
    /// nothing was sent).
    Sent { platform_message_id: String },
    /// Failed, with an error code and message.
    Failed { error_code: &'static str, message: String },
}

/// Records a send's outcome; a timeout's message names the timeout, and
/// says "Retry" for a retry.
pub fn outbox_update(outcome: SendOutcome, timeout_secs: u64, is_retry: bool) -> (r: OutboxUpdate)
    ensures
        match outcome {
            SendOutcome::Delivered(id) => r matches OutboxUpdate::Sent { platform_message_id } && platform_message_id@
                == match id {
                Some(x) => x@,
                None => Seq::<char>::empty(),
            },
            SendOutcome::Skipped => r matches OutboxUpdate::Sent { platform_message_id } && platform_message_id@
                == "skipped"@,
            SendOutcome::Failed(e) => r matches OutboxUpdate::Failed { error_code, message } && error_code@
                == "send_error"@ && message@ == e@,
            SendOutcome::TimedOut => r matches OutboxUpdate::Failed { error_code, message } && error_code@
                == "timeout"@ && message@ == (if is_retry {
                "Retry send timeout after "@
            } else {
                "Send timeout after "@
            }) + dec(timeout_secs as nat) + "s"@,
        },
{
    match outcome {
        SendOutcome::Delivered(id) => OutboxUpdate::Sent {
            platform_message_id: match id {
                Some(x) => x,
                None => String::new(),
            },
        },
        SendOutcome::Skipped => OutboxUpdate::Sent { platform_message_id: owned("skipped") },
        SendOutcome::Failed(e) => OutboxUpdate::Failed { error_code: "send_error", message: e },
        SendOutcome::TimedOut => {
            let mut m = if is_retry {
                owned("Retry send timeout after ")
            } else {
                owned("Send timeout after ")
            };
            push_dec(&mut m, timeout_secs);
            push_str(&mut m, "s");
            OutboxUpdate::Failed { error_code: "timeout", message: m }
        },
    }
}

/// The outbox row written before a reply is sent.
pub struct OutboxRecordPlan {
    /// The row's id.
    pub outbound_id: String,
    /// The kind recorded: "audit_only" for a free-form reply, else the
    /// reply's kind.
    pub reply_kind: String,
    /// Whether the row is an audit record (never retried), written after the
    /// send as abandoned; else it is written as pending before the send.
    pub audit_only: bool,
    /// The reply body kept on the row: never, for privacy.
    pub reply: Option<String>,
    /// Why an audit row is abandoned.
    pub abandon_reason: Option<&'static str>,
}

/// Whether a reply kind is recorded as an audit row only: a free-form model
/// reply, or a kind the outbox does not know.
pub open spec fn audit_only_kind(reply_kind: Seq<char>) -> bool {
    match kind_from_name(reply_kind) {
        None => true,
        Some(k) => k == ReplyKind::LlmFinal,
    }
}

/// The outbox row for a reply of kind `reply_kind` to job `job_id` at
/// `now_ms`: a free-form (or unknown) reply gets an audit-only row
/// `<job>_<kind>_audit_<now>`, abandoned with "full_reply_not_stored_for_privacy";
/// any other a pending row `<job>_<kind>_<now>` of its kind. No row keeps
/// the reply's text.
pub fn outbox_record_plan(job_id: &str, reply_kind: &str, now_ms: i64) -> (r: OutboxRecordPlan)
    ensures
        r.audit_only == audit_only_kind(reply_kind@),
        r.reply_kind@ == (if audit_only_kind(reply_kind@) {
            "audit_only"@
        } else {
            reply_kind@
        }),
        r.reply is None,
        r.audit_only ==> (r.abandon_reason matches Some(x) && x@ == "full_reply_not_stored_for_privacy"@),
        !r.audit_only ==> r.abandon_reason is None,
        r.outbound_id@ == job_id@ + "_"@ + reply_kind@ + (if audit_only_kind(reply_kind@) {
            "_audit_"@
        } else {
            "_"@
        }) + idec(now_ms as int),
{
    let audit = match ReplyKind::from_str(reply_kind) {
        None => true,
        Some(k) => match k {
            ReplyKind::LlmFinal => true,
            _ => false,
        },
    };
    let mut id = owned(job_id);
    push_str(&mut id, "_");
    push_str(&mut id, reply_kind);
    if audit {
        push_str(&mut id, "_audit_");
    } else {
        push_str(&mut id, "_");
    }
    push_idec(&mut id, now_ms);
    if audit {
        OutboxRecordPlan {
            outbound_id: id,
            reply_kind: owned("audit_only"),
            audit_only: true,
            reply: None,
            abandon_reason: Some("full_reply_not_stored_for_privacy"),
        }
    } else {
        OutboxRecordPlan {
            outbound_id: id,
            reply_kind: owned(reply_kind),
            audit_only: false,
            reply: None,
            abandon_reason: None,
        }
    }
}

} // verus!
