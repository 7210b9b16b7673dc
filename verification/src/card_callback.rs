//! The Feishu card callback's decisions: the token check, the action that
//! is accepted, the reply it gets, and the monitor job a monitor button
//! starts.
use vstd::prelude::*;
use crate::feishu::{
    canonical_card_action, gateway_status_reply, help_reply, help_text_spec, recent_jobs_reply_spec,
    recent_jobs_reply_text, status_text, FeishuAsyncJob, RecentJobLine,
};
use crate::fmt::{idec, push_idec};
use crate::gateway::{
    mode_name_spec, ostr, verify_feishu_verification_token, verify_token_spec, FeishuSecurityConfig,
    FeishuSecurityMode,
};
use crate::message::{InboundMessage, MetaValue};
use crate::session::ChannelKind;
use crate::text::{chars_of, owned, push_str, str_is};
use crate::webhook::{checks_token, nonempty};
use crate::json::{json_error, json_found, json_has, json_parse_error, json_str, json_text};

verus! {

/// What the gateway read from a card callback request.
pub struct CardCallbackRequest {
    /// The `x-lark-verification-token` header.
    pub header_token: Option<String>,
    /// The body's `payload.verification_token`, else its
    /// `verification_token`, when that is a string.
    pub payload_token: Option<String>,
    /// Why the body is not JSON, if it is not.
    pub json_error: Option<String>,
    /// `event.action.value.action`, when it is a string.
    pub event_action: Option<String>,
    /// `action.value.action`, when it is a string.
    pub action: Option<String>,
    /// `event.chat_id`, when it is a string.
    pub chat_id: Option<String>,
    /// `event.user.open_id`, when it is a string.
    pub user_open_id: Option<String>,
}

/// The verification token in a card callback body:
/// `payload.verification_token` when that is present, else
/// `verification_token`; when it is a non-empty string.
pub open spec fn payload_token_spec(raw: Seq<char>) -> Option<Seq<char>> {
    let t = if json_found(raw, "/payload/verification_token"@) {
        json_text(raw, "/payload/verification_token"@)
    } else {
        json_text(raw, "/verification_token"@)
    };
    match t {
        Some(v) => if v.len() > 0 {
            Some(v)
        } else {
            None
        },
        None => None,
    }
}

/// Finds the verification token in a card callback body.
pub fn extract_token_from_payload(raw: &str) -> (r: Option<String>)
    ensures
        ostr(r) == payload_token_spec(raw@),
{
    let t = if json_has(raw, "/payload/verification_token") {
        json_str(raw, "/payload/verification_token")
    } else {
        json_str(raw, "/verification_token")
    };
    match t {
        Some(v) => if v.as_str().unicode_len() > 0 {
            Some(v)
        } else {
            None
        },
        None => None,
    }
}

/// Reads a card callback from its raw body and its
/// `x-lark-verification-token` header.
pub fn card_callback_request(raw: &str, header_token: Option<String>) -> (r: CardCallbackRequest)
    ensures
        r.header_token == header_token,
        ostr(r.payload_token) == payload_token_spec(raw@),
        ostr(r.json_error) == json_parse_error(raw@),
        ostr(r.event_action) == json_text(raw@, "/event/action/value/action"@),
        ostr(r.action) == json_text(raw@, "/action/value/action"@),
        ostr(r.chat_id) == json_text(raw@, "/event/chat_id"@),
        ostr(r.user_open_id) == json_text(raw@, "/event/user/open_id"@),
{
    CardCallbackRequest {
        header_token,
        payload_token: extract_token_from_payload(raw),
        json_error: json_error(raw),
        event_action: json_str(raw, "/event/action/value/action"),
        action: json_str(raw, "/action/value/action"),
        chat_id: json_str(raw, "/event/chat_id"),
        user_open_id: json_str(raw, "/event/user/open_id"),
    }
}

/// The token a card callback presents: the header's, else the payload's
/// when it is not empty.
pub open spec fn card_token(req: CardCallbackRequest) -> Option<Seq<char>> {
    match req.header_token {
        Some(h) => Some(h@),
        None => if nonempty(req.payload_token) {
            Some(req.payload_token->0@)
        } else {
            None
        },
    }
}

/// The outcome of the card callback's token check: token and encrypted
/// modes need a token that matches; other modes pass.
pub open spec fn card_token_check_spec(cfg: FeishuSecurityConfig, token: Option<Seq<char>>) -> Result<
    (),
    Seq<char>,
> {
    if checks_token(cfg.mode) {
        match token {
            None => Err("verification_token missing"@),
            Some(t) => match verify_token_spec(cfg, Some(t)) {
                Ok(true) => Ok(()),
                Ok(false) => Err("verification_token mismatch"@),
                Err(e) => Err("verification_token error: "@ + e),
            },
        }
    } else {
        Ok(())
    }
}

/// Checks a card callback's verification token.
pub fn check_card_callback_token(cfg: &FeishuSecurityConfig, req: &CardCallbackRequest) -> (r: Result<
    (),
    String,
>)
    ensures
        match card_token_check_spec(*cfg, card_token(*req)) {
            Ok(_) => r is Ok,
            Err(e) => r matches Err(x) && x@ == e,
        },
{
    let checks = match cfg.mode {
        FeishuSecurityMode::Token | FeishuSecurityMode::Encrypted => true,
        _ => false,
    };
    if !checks {
        return Ok(());
    }
    let token: Option<&String> = match &req.header_token {
        Some(h) => Some(h),
        None => match &req.payload_token {
            Some(p) => if p.as_str().unicode_len() > 0 {
                Some(p)
            } else {
                None
            },
            None => None,
        },
    };
    match token {
        None => Err(owned("verification_token missing")),
        Some(t) => match verify_feishu_verification_token(cfg, Some(t.as_str())) {
            Ok(true) => Ok(()),
            Ok(false) => Err(owned("verification_token mismatch")),
            Err(e) => {
                let mut m = owned("verification_token error: ");
                push_str(&mut m, e.as_str());
                Err(m)
            },
        },
    }
}

/// How a card callback is answered.
pub enum CardCallbackOutcome {
    /// Refused with this HTTP status and message.
    Refused { status: u16, message: String },
    /// No action in the payload: an error toast.
    NoAction,
    /// An action that is not allowed: a warning toast.
    UnknownAction,
    /// An allowed action, by its canonical key.
    Accepted { action: &'static str },
}

/// The action of a card callback: the event's, else the top-level one.
pub open spec fn card_action_spec(req: CardCallbackRequest) -> Option<Seq<char>> {
    match req.event_action {
        Some(a) => Some(a@),
        None => ostr(req.action),
    }
}

/// Decides a card callback: the Feishu channel must be enabled (else 403),
/// the token must pass (else 403 with the check's message), the body must
/// be JSON (else 400); then a missing action, an unknown one or an allowed
/// one.
pub fn card_callback_outcome(channel_enabled: bool, cfg: &FeishuSecurityConfig, req: &CardCallbackRequest) -> (r:
    CardCallbackOutcome)
    ensures
        !channel_enabled ==> (r matches CardCallbackOutcome::Refused { status, message } && status == 403
            && message@ == "Feishu channel is disabled"@),
        channel_enabled ==> match card_token_check_spec(*cfg, card_token(*req)) {
            Err(e) => r matches CardCallbackOutcome::Refused { status, message } && status == 403
                && message@ == e,
            Ok(_) => match req.json_error {
                Some(j) => r matches CardCallbackOutcome::Refused { status, message } && status == 400
                    && message@ == "invalid json: "@ + j@,
                None => match card_action_spec(*req) {
                    None => r is NoAction,
                    Some(a) => if crate::feishu::allowed_actions().contains(a) {
                        r matches CardCallbackOutcome::Accepted { action } && action@ == a
                    } else {
                        r is UnknownAction
                    },
                },
            },
        },
{
    if !channel_enabled {
        return CardCallbackOutcome::Refused {
            status: 403,
            message: owned("Feishu channel is disabled"),
        };
    }
    if let Err(e) = check_card_callback_token(cfg, req) {
        return CardCallbackOutcome::Refused { status: 403, message: e };
    }
    if let Some(j) = &req.json_error {
        let mut m = owned("invalid json: ");
        push_str(&mut m, j.as_str());
        return CardCallbackOutcome::Refused { status: 400, message: m };
    }
    let action: &String = match &req.event_action {
        Some(a) => a,
        None => match &req.action {
            Some(a) => a,
            None => return CardCallbackOutcome::NoAction,
        },
    };
    match canonical_card_action(action.as_str()) {
        Some(c) => CardCallbackOutcome::Accepted { action: c },
        None => CardCallbackOutcome::UnknownAction,
    }
}

/// The status facts a card reply reports.
pub struct CardStatus {
    pub security_mode: FeishuSecurityMode,
    pub verification_token_configured: bool,
    pub encrypt_key_configured: bool,
    /// The Feishu entry's `outbound_mode` setting.
    pub outbound_mode: Option<String>,
    /// The path of the job store, when there is one.
    pub store_path: Option<String>,
    pub pending_jobs: i64,
    pub pending_outbox: i64,
}

/// The status text of a card reply: "(no store)" without a store, and the
/// outbound mode "disabled" when unset.
pub open spec fn card_status_text(s: CardStatus) -> Seq<char> {
    status_text(
        mode_name_spec(s.security_mode),
        s.verification_token_configured,
        s.encrypt_key_configured,
        match s.outbound_mode {
            Some(m) => m@,
            None => "disabled"@,
        },
        s.store_path is Some,
        match s.store_path {
            Some(p) => p@,
            None => "(no store)"@,
        },
        s.pending_jobs,
        s.pending_outbox,
    )
}

/// The reply to an accepted card action. `recent_jobs` holds the store's
/// recent jobs, or `None` when the store is unavailable.
pub open spec fn card_reply_spec(action: Seq<char>, status: CardStatus, recent_jobs: Option<Seq<RecentJobLine>>) -> Seq<
    char,
> {
    if action == "monitor_30s"@ {
        "已收到监控任务（30 秒），正在执行。"@
    } else if action == "monitor_60s"@ {
        "已收到监控任务（60 秒），正在执行。"@
    } else if action == "gateway_status"@ {
        card_status_text(status)
    } else if action == "recent_jobs"@ {
        match recent_jobs {
            Some(jobs) => recent_jobs_reply_spec(jobs),
            None => "最近任务暂不可用：store unavailable"@,
        }
    } else if action == "help"@ {
        help_text_spec()
    } else {
        "未知操作，已忽略。请发送 / 打开功能菜单。"@
    }
}

/// The reply to an accepted card action.
pub fn card_action_reply(action: &str, status: &CardStatus, recent_jobs: Option<&[RecentJobLine]>) -> (r:
    String)
    ensures
        r@ == card_reply_spec(
            action@,
            *status,
            match recent_jobs {
                Some(j) => Some(j@),
                None => None,
            },
        ),
{
    if str_is(action, "monitor_30s") {
        owned("已收到监控任务（30 秒），正在执行。")
    } else if str_is(action, "monitor_60s") {
        owned("已收到监控任务（60 秒），正在执行。")
    } else if str_is(action, "gateway_status") {
        let outbound: &str = match &status.outbound_mode {
            Some(m) => m.as_str(),
            None => "disabled",
        };
        let path: &str = match &status.store_path {
            Some(p) => p.as_str(),
            None => "(no store)",
        };
        gateway_status_reply(
            Some(status.security_mode.as_str()),
            status.verification_token_configured,
            status.encrypt_key_configured,
            Some(outbound),
            status.store_path.is_some(),
            path,
            status.pending_jobs,
            status.pending_outbox,
        )
    } else if str_is(action, "recent_jobs") {
        match recent_jobs {
            Some(jobs) => recent_jobs_reply_text(jobs),
            None => owned("最近任务暂不可用：store unavailable"),
        }
    } else if str_is(action, "help") {
        help_reply()
    } else {
        owned("未知操作，已忽略。请发送 / 打开功能菜单。")
    }
}

/// The preview of a reply shown in the toast: its first 120 characters.
pub fn card_reply_preview(reply: &str) -> (r: String)
    ensures
        r@ == reply@.take(if reply@.len() < 120 {
            reply@.len() as int
        } else {
            120
        }),
{
    let c = chars_of(reply);
    let n: usize = if c.len() < 120 {
        c.len()
    } else {
        120
    };
    let mut out = String::new();
    crate::text::push_range(&mut out, c.as_slice(), 0, n);
    assert(out@ =~= reply@.take(n as int));
    out
}

/// The command a monitor button runs.
pub open spec fn card_monitor_command_spec(action: Seq<char>) -> Option<Seq<char>> {
    if action == "monitor_30s"@ {
        Some("/monitor 桌面 30秒"@)
    } else if action == "monitor_60s"@ {
        Some("/monitor 桌面 60秒"@)
    } else {
        None
    }
}

/// The command a monitor button runs, if the action is one.
pub fn card_monitor_command(action: &str) -> (r: Option<&'static str>)
    ensures
        crate::gateway::opt_view(r) == card_monitor_command_spec(action@),
{
    if str_is(action, "monitor_30s") {
        Some("/monitor 桌面 30秒")
    } else if str_is(action, "monitor_60s") {
        Some("/monitor 桌面 60秒")
    } else {
        None
    }
}

/// The key of a card-started job: "card_", the time in milliseconds, "_"
/// and the action.
pub open spec fn card_key_spec(now_ms: i64, action: Seq<char>) -> Seq<char> {
    "card_"@ + idec(now_ms as int) + "_"@ + action
}

/// The key of a card-started job (its job id and its event key).
pub fn card_job_key(now_ms: i64, action: &str) -> (r: String)
    ensures
        r@ == card_key_spec(now_ms, action@),
{
    let mut k = owned("card_");
    push_idec(&mut k, now_ms);
    push_str(&mut k, "_");
    push_str(&mut k, action);
    k
}

/// The outbox id of a card action result: the job key, "_" and the time.
pub fn card_outbound_id(job_key: &str, now_ms: i64) -> (r: String)
    ensures
        r@ == job_key@ + "_"@ + idec(now_ms as int),
{
    let mut k = owned(job_key);
    push_str(&mut k, "_");
    push_idec(&mut k, now_ms);
    k
}

/// The job a monitor button starts in its chat: the monitor command in tool
/// mode, from the clicking user, keyed by the action and the time. None for
/// another action, or without a chat.
pub fn card_monitor_job(
    action: &str,
    chat_id: Option<String>,
    user_open_id: Option<String>,
    now_ms: i64,
    created_at: u64,
) -> (r: Option<FeishuAsyncJob>)
    ensures
        r is Some <==> (card_monitor_command_spec(action@) is Some && chat_id is Some),
        r matches Some(job) ==> {
            &&& job.channel == ChannelKind::Feishu
            &&& job.inbound.channel == ChannelKind::Feishu
            &&& job.inbound.text@ == card_monitor_command_spec(action@)->0
            &&& ostr(job.inbound.user_id) == ostr(user_open_id)
            &&& ostr(job.inbound.session_id) == ostr(chat_id)
            &&& job.inbound.metadata@.len() == 1
            &&& job.inbound.metadata@[0].0@ == "card_action"@
            &&& job.inbound.metadata@[0].1 matches MetaValue::Str(a) && a@ == action@
            &&& job.raw_payload@ == "{\"card_action\":\""@ + action@ + "\"}"@
            &&& !job.is_chat_only
            &&& job.created_at == created_at
            &&& job.event_key@ == card_key_spec(now_ms, action@)
            &&& job.job_id@ == card_key_spec(now_ms, action@)
        },
{
    let text = match card_monitor_command(action) {
        Some(t) => t,
        None => return None,
    };
    let chat = match chat_id {
        Some(c) => c,
        None => return None,
    };
    let mut metadata: Vec<(String, MetaValue)> = Vec::new();
    metadata.push((owned("card_action"), MetaValue::Str(owned(action))));
    let inbound = InboundMessage {
        channel: ChannelKind::Feishu,
        user_id: user_open_id,
        session_id: Some(chat),
        text: owned(text),
        metadata,
    };
    let mut raw = owned("{\"card_action\":\"");
    push_str(&mut raw, action);
    push_str(&mut raw, "\"}");
    let key = card_job_key(now_ms, action);
    let job_id = card_job_key(now_ms, action);
    Some(
        FeishuAsyncJob::new_at(ChannelKind::Feishu, inbound, raw, false, key, Some(job_id), created_at),
    )
}

} // verus!
