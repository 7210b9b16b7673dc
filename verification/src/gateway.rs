//! Gateway request handling: platform webhook responses, execution steps,
//! Feishu webhook security (mode, secrets, token check, error codes), the
//! configuration the handlers read (enabled channels, concurrency limits,
//! desktop vision) and the inbound metadata readers.
use vstd::prelude::*;
use crate::fmt::{padded, push_padded};
use crate::message::{meta_get, meta_lookup, metadata_index, InboundMessage, MetaValue};
use crate::session::ChannelKind;
use crate::text::{
    ascii_lower_seq, ascii_lower_vec, chars_of, contains_chars, is_ws, lowercase, owned, push_char,
    push_str, seq_contains, str_is, str_to_lowercase, trim_seq, trimmed_chars,
};

verus! {

// ---------------------------------------------------------------------------
// Platform webhook responses
// ---------------------------------------------------------------------------

/// How a reply was delivered to the platform.
#[derive(Debug, Clone, Copy, PartialEq, Eq)]
pub enum OutboundDeliveryStatus {
    NotImplemented,
    HttpResponseOnly,
    Sent,
    Failed,
    NotConfigured,
    SkippedEmptyReply,
}

impl Default for OutboundDeliveryStatus {
    fn default() -> (r: Self)
        ensures
            r == OutboundDeliveryStatus::NotImplemented,
    {
        OutboundDeliveryStatus::NotImplemented
    }
}

/// The outcome of an outbound send, without secrets.
#[derive(Debug, Clone)]
pub struct OutboundResultSummary {
    pub ok: bool,
    pub provider: String,
    pub delivery: OutboundDeliveryStatus,
    pub platform_message_id: Option<String>,
    pub error_code: Option<String>,
    pub message: Option<String>,
}

/// The response to a platform webhook (Feishu, Lark).
#[derive(Debug, Clone)]
pub struct PlatformWebhookResponse {
    pub ok: bool,
    pub channel: String,
    pub message_id: Option<String>,
    pub conversation_id: Option<String>,
    pub agent_reply: Option<String>,
    pub outbound_delivery: OutboundDeliveryStatus,
    pub outbound_result: Option<OutboundResultSummary>,
    pub error: Option<String>,
}

impl PlatformWebhookResponse {
    /// A successful reply returned in the HTTP response only.
    pub fn success(
        channel: &str,
        message_id: Option<String>,
        conversation_id: Option<String>,
        reply: String,
    ) -> (r: Self)
        ensures
            r.ok,
            r.channel@ == channel@,
            r.message_id == message_id,
            r.conversation_id == conversation_id,
            r.agent_reply == Some(reply),
            r.outbound_delivery == OutboundDeliveryStatus::HttpResponseOnly,
            r.outbound_result is None,
            r.error is None,
    {
        PlatformWebhookResponse {
            ok: true,
            channel: owned(channel),
            message_id,
            conversation_id,
            agent_reply: Some(reply),
            outbound_delivery: OutboundDeliveryStatus::HttpResponseOnly,
            outbound_result: None,
            error: None,
        }
    }

    /// A successful reply that was also sent outbound; the delivery status is
    /// the send's.
    pub fn success_with_outbound(
        channel: &str,
        message_id: Option<String>,
        conversation_id: Option<String>,
        reply: String,
        outbound_result: OutboundResultSummary,
    ) -> (r: Self)
        ensures
            r.ok,
            r.channel@ == channel@,
            r.message_id == message_id,
            r.conversation_id == conversation_id,
            r.agent_reply == Some(reply),
            r.outbound_delivery == outbound_result.delivery,
            r.outbound_result == Some(outbound_result),
            r.error is None,
    {
        let delivery = outbound_result.delivery;
        PlatformWebhookResponse {
            ok: true,
            channel: owned(channel),
            message_id,
            conversation_id,
            agent_reply: Some(reply),
            outbound_delivery: delivery,
            outbound_result: Some(outbound_result),
            error: None,
        }
    }

    /// A failed request with its error.
    pub fn error(channel: &str, error: &str) -> (r: Self)
        ensures
            !r.ok,
            r.channel@ == channel@,
            r.message_id is None,
            r.conversation_id is None,
            r.agent_reply is None,
            r.outbound_delivery == OutboundDeliveryStatus::NotImplemented,
            r.outbound_result is None,
            r.error matches Some(e) && e@ == error@,
    {
        PlatformWebhookResponse {
            ok: false,
            channel: owned(channel),
            message_id: None,
            conversation_id: None,
            agent_reply: None,
            outbound_delivery: OutboundDeliveryStatus::NotImplemented,
            outbound_result: None,
            error: Some(owned(error)),
        }
    }

    /// The answer to a URL-verification challenge.
    pub fn challenge(channel: &str) -> (r: Self)
        ensures
            r.ok,
            r.channel@ == channel@,
            r.message_id is None,
            r.conversation_id is None,
            r.agent_reply is None,
            r.outbound_delivery == OutboundDeliveryStatus::NotImplemented,
            r.outbound_result is None,
            r.error is None,
    {
        PlatformWebhookResponse {
            ok: true,
            channel: owned(channel),
            message_id: None,
            conversation_id: None,
            agent_reply: None,
            outbound_delivery: OutboundDeliveryStatus::NotImplemented,
            outbound_result: None,
            error: None,
        }
    }
}

// ---------------------------------------------------------------------------
// Execution steps
// ---------------------------------------------------------------------------

/// Added and deleted lines of a file change.
#[derive(Debug, Clone, Copy, PartialEq, Eq)]
pub struct RunDiffStats {
    pub additions: i32,
    pub deletions: i32,
}

/// Run events produced during a tool call loop.
#[derive(Debug, Clone)]
pub enum RunEvent {
    ToolStarted { tool_call_id: String, tool_name: String, summary: String },
    ToolCompleted {
        tool_call_id: String,
        tool_name: String,
        success: bool,
        duration_ms: u64,
        result_summary: String,
        diff_stats: Option<RunDiffStats>,
    },
    CommandOutput { tool_call_id: String, tool_name: String, output: String, is_stderr: bool },
    FileChanged { path: String, additions: i32, deletions: i32 },
}

/// One step of a run, for the UI.
#[derive(Debug, Clone)]
pub struct ExecutionStep {
    pub title: String,
    pub status: String,
    pub detail: Option<String>,
    pub run_events: Vec<RunEvent>,
}

impl ExecutionStep {
    fn with_status(title: &str, status: &str, detail: &str) -> (r: Self)
        ensures
            r.title@ == title@,
            r.status@ == status@,
            r.detail matches Some(d) && d@ == detail@,
            r.run_events@.len() == 0,
    {
        ExecutionStep {
            title: owned(title),
            status: owned(status),
            detail: Some(owned(detail)),
            run_events: Vec::new(),
        }
    }

    /// A finished step.
    pub fn done(title: &str, detail: &str) -> (r: Self)
        ensures
            r.title@ == title@,
            r.status@ == "done"@,
            r.detail matches Some(d) && d@ == detail@,
            r.run_events@.len() == 0,
    {
        Self::with_status(title, "done", detail)
    }

    /// A running step.
    pub fn running(title: &str, detail: &str) -> (r: Self)
        ensures
            r.title@ == title@,
            r.status@ == "running"@,
            r.detail matches Some(d) && d@ == detail@,
            r.run_events@.len() == 0,
    {
        Self::with_status(title, "running", detail)
    }

    /// A failed step.
    pub fn error(title: &str, detail: &str) -> (r: Self)
        ensures
            r.title@ == title@,
            r.status@ == "error"@,
            r.detail matches Some(d) && d@ == detail@,
            r.run_events@.len() == 0,
    {
        Self::with_status(title, "error", detail)
    }

    /// The step with its run events replaced.
    pub fn with_events(self, events: Vec<RunEvent>) -> (r: Self)
        ensures
            r.title == self.title,
            r.status == self.status,
            r.detail == self.detail,
            r.run_events == events,
    {
        let mut s = self;
        s.run_events = events;
        s
    }
}

/// A step detail: the trimmed text, cut to `max` characters and marked with
/// "..." when it was longer.
pub open spec fn truncate_for_step_spec(value: Seq<char>, max: nat) -> Seq<char> {
    let t = trim_seq(value);
    if t.len() > max {
        t.take(max as int) + "..."@
    } else {
        t
    }
}

/// Trims a value and cuts it to `max_chars` characters for a step detail.
pub fn truncate_for_step(value: &str, max_chars: usize) -> (r: String)
    ensures
        r@ == truncate_for_step_spec(value@, max_chars as nat),
{
    let t = trimmed_chars(value);
    let mut out = String::new();
    let mut idx: usize = 0;
    while idx < t.len()
        invariant
            t@ == trim_seq(value@),
            idx <= t.len(),
            idx <= max_chars,
            out@ == t@.take(idx as int),
        decreases t.len() - idx,
    {
        if idx >= max_chars {
            push_str(&mut out, "...");
            assert(out@ =~= truncate_for_step_spec(value@, max_chars as nat));
            return out;
        }
        push_char(&mut out, t[idx]);
        assert(t@.take(idx + 1) =~= t@.take(idx as int).push(t@[idx as int]));
        idx += 1;
    }
    assert(t@.take(idx as int) =~= t@);
    out
}

/// A log preview: the first `max` characters, and "…" when the text was longer.
pub open spec fn truncate_for_log_spec(value: Seq<char>, max: nat) -> Seq<char> {
    if value.len() > max {
        value.take(max as int) + seq!['…']
    } else {
        value
    }
}

/// Cuts a text to `max_chars` characters for the log.
pub fn truncate_chars_for_log(value: &str, max_chars: usize) -> (r: String)
    ensures
        r@ == truncate_for_log_spec(value@, max_chars as nat),
{
    let c = chars_of(value);
    let n = if c.len() < max_chars {
        c.len()
    } else {
        max_chars
    };
    let mut preview = String::new();
    crate::text::push_range(&mut preview, c.as_slice(), 0, n);
    if c.len() > max_chars {
        push_str(&mut preview, "…");
        proof {
            reveal_strlit("…");
        }
    }
    assert(preview@ =~= truncate_for_log_spec(value@, max_chars as nat));
    preview
}

// ---------------------------------------------------------------------------
// Feishu webhook security
// ---------------------------------------------------------------------------

/// Security mode of the Feishu webhook.
#[derive(Debug, Clone, Copy, PartialEq, Eq)]
pub enum FeishuSecurityMode {
    /// No verification, with warnings.
    Dev,
    /// Verify the verification token.
    Token,
    /// Decrypt the encrypted payload.
    Encrypted,
    /// Not set: dev mode, for backwards compatibility.
    Default,
    /// Set to an unsupported mode.
    Invalid,
}

/// The security mode a setting names (compared lower-cased).
pub open spec fn mode_from_spec(s: Option<Seq<char>>) -> FeishuSecurityMode {
    match s {
        None => FeishuSecurityMode::Default,
        Some(v) => {
            let l = lowercase(v);
            if l == "dev"@ {
                FeishuSecurityMode::Dev
            } else if l == "token"@ {
                FeishuSecurityMode::Token
            } else if l == "encrypted"@ {
                FeishuSecurityMode::Encrypted
            } else {
                FeishuSecurityMode::Invalid
            }
        },
    }
}

/// The name of a security mode (the default mode is dev).
pub open spec fn mode_name_spec(m: FeishuSecurityMode) -> Seq<char> {
    match m {
        FeishuSecurityMode::Dev => "dev"@,
        FeishuSecurityMode::Token => "token"@,
        FeishuSecurityMode::Encrypted => "encrypted"@,
        FeishuSecurityMode::Default => "dev"@,
        FeishuSecurityMode::Invalid => "invalid"@,
    }
}

/// The view of an optional string slice.
pub open spec fn opt_view(s: Option<&str>) -> Option<Seq<char>> {
    match s {
        Some(v) => Some(v@),
        None => None,
    }
}

impl FeishuSecurityMode {
    /// The security mode a setting names.
    pub fn from_str(s: Option<&str>) -> (r: Self)
        ensures
            r == mode_from_spec(opt_view(s)),
    {
        match s {
            None => FeishuSecurityMode::Default,
            Some(v) => {
                let l = str_to_lowercase(v);
                if str_is(l.as_str(), "dev") {
                    FeishuSecurityMode::Dev
                } else if str_is(l.as_str(), "token") {
                    FeishuSecurityMode::Token
                } else if str_is(l.as_str(), "encrypted") {
                    FeishuSecurityMode::Encrypted
                } else {
                    FeishuSecurityMode::Invalid
                }
            },
        }
    }

    /// The mode's name.
    pub fn as_str(&self) -> (r: &'static str)
        ensures
            r@ == mode_name_spec(*self),
    {
        match self {
            FeishuSecurityMode::Dev => "dev",
            FeishuSecurityMode::Token => "token",
            FeishuSecurityMode::Encrypted => "encrypted",
            FeishuSecurityMode::Default => "dev",
            FeishuSecurityMode::Invalid => "invalid",
        }
    }
}

/// Security configuration of the Feishu channel.
#[derive(Debug, Clone)]
pub struct FeishuSecurityConfig {
    pub mode: FeishuSecurityMode,
    pub verification_token: Option<String>,
    pub encrypt_key: Option<String>,
    pub insecure: bool,
}

/// Whether a configured secret is set: not blank, and not the "***SET***"
/// placeholder.
pub open spec fn configured_secret(v: Seq<char>) -> bool {
    trim_seq(v).len() > 0 && v != "***SET***"@
}

impl FeishuSecurityConfig {
    /// Whether a secret value is really configured.
    pub fn is_configured_secret(value: &str) -> (r: bool)
        ensures
            r == configured_secret(value@),
    {
        let t = trimmed_chars(value);
        t.len() > 0 && !str_is(value, "***SET***")
    }
}

/// The outcome of checking a request's verification token: `Ok(true)` to
/// accept, `Ok(false)` on a mismatch, or the error.
pub open spec fn verify_token_spec(cfg: FeishuSecurityConfig, request_token: Option<Seq<char>>) -> Result<
    bool,
    Seq<char>,
> {
    match cfg.mode {
        FeishuSecurityMode::Dev | FeishuSecurityMode::Default => Ok(true),
        FeishuSecurityMode::Token | FeishuSecurityMode::Encrypted => match cfg.verification_token {
            None => Err("verification_token not configured"@),
            Some(expected) => match request_token {
                Some(t) => Ok(t == expected@),
                None => Err("verification_token missing from request"@),
            },
        },
        FeishuSecurityMode::Invalid => Err("invalid security mode"@),
    }
}

/// Verifies the verification token of a request: dev mode accepts all;
/// token and encrypted modes compare with the configured token.
pub fn verify_feishu_verification_token(
    security_config: &FeishuSecurityConfig,
    request_token: Option<&str>,
) -> (r: Result<bool, String>)
    ensures
        r matches Ok(b) ==> verify_token_spec(*security_config, opt_view(request_token)) == Ok::<
            bool,
            Seq<char>,
        >(b),
        r matches Err(e) ==> verify_token_spec(*security_config, opt_view(request_token)) == Err::<
            bool,
            Seq<char>,
        >(e@),
{
    match security_config.mode {
        FeishuSecurityMode::Dev | FeishuSecurityMode::Default => Ok(true),
        FeishuSecurityMode::Token | FeishuSecurityMode::Encrypted => {
            let expected = match &security_config.verification_token {
                Some(e) => e,
                None => return Err(owned("verification_token not configured")),
            };
            match request_token {
                Some(token) => Ok(str_is(token, expected.as_str())),
                None => Err(owned("verification_token missing from request")),
            }
        },
        FeishuSecurityMode::Invalid => Err(owned("invalid security mode")),
    }
}

/// The stable error code of a webhook failure message: an exact code, or
/// the first matching phrase, or "internal_error".
pub open spec fn webhook_error_code_spec(m: Seq<char>) -> Seq<char> {
    if m == "invalid_json"@ || m == "token_missing"@ || m == "token_mismatch"@ || m
        == "decrypt_failed"@ || m == "encrypt_key_missing"@ || m == "missing_challenge"@ || m
        == "unsupported_event"@ || m == "invalid_security_mode"@ || m
        == "encrypted_payload_required"@ || m == "channel_disabled"@ || m == "signature_invalid"@
        || m == "replay_rejected"@ || m == "internal_error"@ {
        m
    } else if seq_contains(m, "invalid json"@) || seq_contains(m, "invalid channel webhook payload"@) {
        "invalid_json"@
    } else if seq_contains(m, "verification_token mismatch"@) {
        "token_mismatch"@
    } else if seq_contains(m, "verification_token missing from request"@) {
        "token_missing"@
    } else if seq_contains(m, "encrypt_key"@) && seq_contains(m, "not configured"@) {
        "encrypt_key_missing"@
    } else if seq_contains(m, "decrypt"@) {
        "decrypt_failed"@
    } else if seq_contains(m, "encrypted Feishu payload required"@) || seq_contains(
        m,
        "encrypt field missing"@,
    ) {
        "encrypted_payload_required"@
    } else if seq_contains(m, "channel is disabled"@) {
        "channel_disabled"@
    } else if seq_contains(m, "signature"@) {
        "signature_invalid"@
    } else if seq_contains(m, "timestamp"@) || seq_contains(m, "nonce"@) || seq_contains(m, "skew"@) {
        "replay_rejected"@
    } else if seq_contains(m, "does not contain a text message"@) {
        "unsupported_event"@
    } else {
        "internal_error"@
    }
}

/// The thirteen stable webhook error codes.
pub open spec fn webhook_error_codes() -> Seq<Seq<char>> {
    seq![
        "invalid_json"@,
        "token_missing"@,
        "token_mismatch"@,
        "decrypt_failed"@,
        "encrypt_key_missing"@,
        "missing_challenge"@,
        "unsupported_event"@,
        "invalid_security_mode"@,
        "encrypted_payload_required"@,
        "channel_disabled"@,
        "signature_invalid"@,
        "replay_rejected"@,
        "internal_error"@,
    ]
}

/// Law: every message maps to one of the thirteen codes, every code maps to
/// itself, so mapping twice is mapping once.
pub proof fn lemma_webhook_error_code_stable(m: Seq<char>)
    ensures
        webhook_error_codes().contains(webhook_error_code_spec(m)),
        forall|i: int| 0 <= i < 13 ==> webhook_error_code_spec(#[trigger] webhook_error_codes()[i])
            == webhook_error_codes()[i],
        webhook_error_code_spec(webhook_error_code_spec(m)) == webhook_error_code_spec(m),
{
    let c = webhook_error_codes();
    let r = webhook_error_code_spec(m);
    assert(c[0] == "invalid_json"@);
    assert(c[1] == "token_missing"@);
    assert(c[2] == "token_mismatch"@);
    assert(c[3] == "decrypt_failed"@);
    assert(c[4] == "encrypt_key_missing"@);
    assert(c[5] == "missing_challenge"@);
    assert(c[6] == "unsupported_event"@);
    assert(c[7] == "invalid_security_mode"@);
    assert(c[8] == "encrypted_payload_required"@);
    assert(c[9] == "channel_disabled"@);
    assert(c[10] == "signature_invalid"@);
    assert(c[11] == "replay_rejected"@);
    assert(c[12] == "internal_error"@);
    assert(c.contains(r));
}

fn has(m: &[char], lit: &str) -> (r: bool)
    ensures
        r == seq_contains(m@, lit@),
{
    contains_chars(m, chars_of(lit).as_slice())
}

/// Maps a webhook failure message to its stable error code.
pub fn feishu_webhook_error_code(message: &str) -> (r: &'static str)
    ensures
        r@ == webhook_error_code_spec(message@),
{
    let codes: [&'static str; 13] = [
        "invalid_json",
        "token_missing",
        "token_mismatch",
        "decrypt_failed",
        "encrypt_key_missing",
        "missing_challenge",
        "unsupported_event",
        "invalid_security_mode",
        "encrypted_payload_required",
        "channel_disabled",
        "signature_invalid",
        "replay_rejected",
        "internal_error",
    ];
    let ghost exact = message@ == "invalid_json"@ || message@ == "token_missing"@ || message@
        == "token_mismatch"@ || message@ == "decrypt_failed"@ || message@ == "encrypt_key_missing"@
        || message@ == "missing_challenge"@ || message@ == "unsupported_event"@ || message@
        == "invalid_security_mode"@ || message@ == "encrypted_payload_required"@ || message@
        == "channel_disabled"@ || message@ == "signature_invalid"@ || message@
        == "replay_rejected"@ || message@ == "internal_error"@;
    let mut i: usize = 0;
    while i < 13
        invariant
            i <= 13,
            codes@.len() == 13,
            codes@[0]@ == "invalid_json"@,
            codes@[1]@ == "token_missing"@,
            codes@[2]@ == "token_mismatch"@,
            codes@[3]@ == "decrypt_failed"@,
            codes@[4]@ == "encrypt_key_missing"@,
            codes@[5]@ == "missing_challenge"@,
            codes@[6]@ == "unsupported_event"@,
            codes@[7]@ == "invalid_security_mode"@,
            codes@[8]@ == "encrypted_payload_required"@,
            codes@[9]@ == "channel_disabled"@,
            codes@[10]@ == "signature_invalid"@,
            codes@[11]@ == "replay_rejected"@,
            codes@[12]@ == "internal_error"@,
            exact <==> (message@ == "invalid_json"@ || message@ == "token_missing"@ || message@
                == "token_mismatch"@ || message@ == "decrypt_failed"@ || message@
                == "encrypt_key_missing"@ || message@ == "missing_challenge"@ || message@
                == "unsupported_event"@ || message@ == "invalid_security_mode"@ || message@
                == "encrypted_payload_required"@ || message@ == "channel_disabled"@ || message@
                == "signature_invalid"@ || message@ == "replay_rejected"@ || message@
                == "internal_error"@),
            forall|k: int| 0 <= k < i ==> codes@[k]@ != message@,
        decreases 13 - i,
    {
        if str_is(codes[i], message) {
            return codes[i];
        }
        i += 1;
    }
    assert(!exact);
    let m = chars_of(message);
    let ms = m.as_slice();
    if has(ms, "invalid json") || has(ms, "invalid channel webhook payload") {
        "invalid_json"
    } else if has(ms, "verification_token mismatch") {
        "token_mismatch"
    } else if has(ms, "verification_token missing from request") {
        "token_missing"
    } else if has(ms, "encrypt_key") && has(ms, "not configured") {
        "encrypt_key_missing"
    } else if has(ms, "decrypt") {
        "decrypt_failed"
    } else if has(ms, "encrypted Feishu payload required") || has(ms, "encrypt field missing") {
        "encrypted_payload_required"
    } else if has(ms, "channel is disabled") {
        "channel_disabled"
    } else if has(ms, "signature") {
        "signature_invalid"
    } else if has(ms, "timestamp") || has(ms, "nonce") || has(ms, "skew") {
        "replay_rejected"
    } else if has(ms, "does not contain a text message") {
        "unsupported_event"
    } else {
        "internal_error"
    }
}

/// Whether a provider takes images in the OpenAI vision format: an unknown
/// provider does; anthropic, gemini and mock (ASCII case-insensitive) do not.
pub open spec fn supports_vision_spec(provider: Option<Seq<char>>) -> bool {
    match provider {
        None => true,
        Some(p) => {
            let l = ascii_lower_seq(p);
            !(l == "anthropic"@ || l == "gemini"@ || l == "mock"@)
        },
    }
}

/// Whether a provider takes images in the OpenAI vision format.
pub fn provider_supports_openai_vision(provider: Option<&str>) -> (r: bool)
    ensures
        r == supports_vision_spec(opt_view(provider)),
{
    match provider {
        None => true,
        Some(p) => {
            let l = ascii_lower_vec(chars_of(p).as_slice());
            let ls = l.as_slice();
            !(crate::text::chars_eq_str(ls, "anthropic") || crate::text::chars_eq_str(ls, "gemini")
                || crate::text::chars_eq_str(ls, "mock"))
        },
    }
}

// ---------------------------------------------------------------------------
// Clock texts
// ---------------------------------------------------------------------------

/// `HH:MM:SS.mmm` (UTC) of a time in milliseconds since the Unix epoch.
pub open spec fn clock_text(ms: nat) -> Seq<char> {
    let t = ms / 1000;
    padded(((t / 3600) % 24) as int, 2) + ":"@ + padded(((t / 60) % 60) as int, 2) + ":"@ + padded(
        (t % 60) as int,
        2,
    ) + "."@ + padded((ms % 1000) as int, 3)
}

/// The clock text of a time in milliseconds since the Unix epoch.
pub fn clock_text_of(ms: u128) -> (r: String)
    ensures
        r@ == clock_text(ms as nat),
{
    let t = ms / 1000;
    let h = ((t / 3600) % 24) as i64;
    let m = ((t / 60) % 60) as i64;
    let s = (t % 60) as i64;
    let milli = (ms % 1000) as i64;
    let mut out = String::new();
    push_padded(&mut out, h, 2);
    push_str(&mut out, ":");
    push_padded(&mut out, m, 2);
    push_str(&mut out, ":");
    push_padded(&mut out, s, 2);
    push_str(&mut out, ".");
    push_padded(&mut out, milli, 3);
    assert(out@ =~= clock_text(ms as nat));
    out
}

/// The current time of day (UTC) as `HH:MM:SS.mmm`, for log lines; midnight
/// when the clock is set before the epoch.
pub fn now_ts() -> (r: String)
    ensures
        exists|ms: nat| r@ == clock_text(ms),
{
    let ms: u128 = match crate::clock::system_millis_since_epoch() {
        Some(m) => m,
        None => 0,
    };
    clock_text_of(ms)
}

/// The milliseconds of a clock reading as `i64` (as `as i64` casts), or 0
/// when the clock is set before the epoch.
pub open spec fn millis_as_i64(ms: Option<u128>) -> i64 {
    match ms {
        Some(m) => m as i64,
        None => 0,
    }
}

/// A clock reading in milliseconds as `i64`, 0 when the clock was set
/// before the epoch.
pub fn timestamp_from_clock(ms: Option<u128>) -> (r: i64)
    ensures
        r == millis_as_i64(ms),
{
    match ms {
        Some(m) => m as i64,
        None => 0,
    }
}

/// The current Unix time in milliseconds, 0 when the clock is set before
/// the epoch.
pub fn chrono_timestamp_simple() -> i64 {
    timestamp_from_clock(crate::clock::system_millis_since_epoch())
}

// ---------------------------------------------------------------------------
// Configuration
// ---------------------------------------------------------------------------

/// One channel's configuration. `extra` holds its free-form settings, in order.
pub struct ChannelEntry {
    pub enabled: bool,
    pub token: Option<String>,
    pub token_env: Option<String>,
    pub security_mode: Option<String>,
    pub verification_token: Option<String>,
    pub verification_token_env: Option<String>,
    pub encrypt_key: Option<String>,
    pub encrypt_key_env: Option<String>,
    pub extra: Vec<(String, MetaValue)>,
}

impl ChannelEntry {
    /// An entry with nothing configured.
    pub fn new(enabled: bool) -> (r: Self)
        ensures
            r.enabled == enabled,
            r.token is None && r.token_env is None && r.security_mode is None,
            r.verification_token is None && r.verification_token_env is None,
            r.encrypt_key is None && r.encrypt_key_env is None,
            r.extra@.len() == 0,
    {
        ChannelEntry {
            enabled,
            token: None,
            token_env: None,
            security_mode: None,
            verification_token: None,
            verification_token_env: None,
            encrypt_key: None,
            encrypt_key_env: None,
            extra: Vec::new(),
        }
    }
}

/// The per-channel configuration entries.
pub struct ChannelsConfig {
    pub webhook: Option<ChannelEntry>,
    pub wechat: Option<ChannelEntry>,
    pub feishu: Option<ChannelEntry>,
    pub lark: Option<ChannelEntry>,
    pub dingtalk: Option<ChannelEntry>,
    pub wecom: Option<ChannelEntry>,
    pub telegram: Option<ChannelEntry>,
    pub discord: Option<ChannelEntry>,
    pub slack: Option<ChannelEntry>,
    pub whatsapp: Option<ChannelEntry>,
    pub matrix: Option<ChannelEntry>,
    pub irc: Option<ChannelEntry>,
    pub email: Option<ChannelEntry>,
    pub msteams: Option<ChannelEntry>,
}

/// Sub-agent limits.
#[derive(Debug, Clone, Copy, PartialEq, Eq)]
pub struct SubagentsConfig {
    pub max_concurrent: Option<u32>,
    pub max_spawn_depth: Option<u32>,
    pub max_children_per_agent: Option<u32>,
}

impl Default for SubagentsConfig {
    fn default() -> (r: Self)
        ensures
            r.max_concurrent is None,
            r.max_spawn_depth is None,
            r.max_children_per_agent is None,
    {
        SubagentsConfig { max_concurrent: None, max_spawn_depth: None, max_children_per_agent: None }
    }
}

/// Agent defaults: the concurrency limit and the sub-agent limits.
#[derive(Debug, Clone, Copy, PartialEq, Eq)]
pub struct AgentDefaultsExtended {
    pub max_concurrent: Option<u32>,
    pub subagents: Option<SubagentsConfig>,
}

/// The gateway configuration that the request handling reads.
pub struct Config {
    pub channels_config: ChannelsConfig,
    pub agent_defaults_extended: AgentDefaultsExtended,
    /// Whether desktop screenshots go to the model on every request.
    pub desktop_vision_enabled: bool,
    /// Whether the gateway's own WeCom endpoint is enabled.
    pub gateway_wecom_enabled: bool,
    /// Whether the gateway's own DingTalk endpoint is enabled.
    pub gateway_dingtalk_enabled: bool,
}

impl Default for Config {
    fn default() -> (r: Self)
        ensures
            r.channels_config.webhook is None && r.channels_config.wechat is None,
            r.channels_config.feishu is None && r.channels_config.lark is None,
            r.channels_config.dingtalk is None && r.channels_config.telegram is None,
            r.channels_config.discord is None && r.channels_config.slack is None,
            r.channels_config.whatsapp is None && r.channels_config.matrix is None,
            r.channels_config.irc is None && r.channels_config.email is None,
            r.channels_config.msteams is None && r.channels_config.wecom is None,
            r.agent_defaults_extended.max_concurrent is None,
            r.agent_defaults_extended.subagents is None,
            !r.desktop_vision_enabled,
            !r.gateway_wecom_enabled && !r.gateway_dingtalk_enabled,
    {
        Config {
            channels_config: ChannelsConfig {
                webhook: None,
                wechat: None,
                feishu: None,
                lark: None,
                dingtalk: None,
                wecom: None,
                telegram: None,
                discord: None,
                slack: None,
                whatsapp: None,
                matrix: None,
                irc: None,
                email: None,
                msteams: None,
            },
            agent_defaults_extended: AgentDefaultsExtended { max_concurrent: None, subagents: None },
            desktop_vision_enabled: false,
            gateway_wecom_enabled: false,
            gateway_dingtalk_enabled: false,
        }
    }
}

/// The entry that decides whether a channel is enabled (web, webchat and cli
/// have none).
pub open spec fn enabled_entry(c: ChannelsConfig, channel: ChannelKind) -> Option<ChannelEntry> {
    match channel {
        ChannelKind::Wechat => c.wechat,
        ChannelKind::Feishu => c.feishu,
        ChannelKind::Lark => c.lark,
        ChannelKind::Dingtalk => c.dingtalk,
        ChannelKind::Telegram => c.telegram,
        ChannelKind::Discord => c.discord,
        ChannelKind::Slack => c.slack,
        ChannelKind::Whatsapp => c.whatsapp,
        ChannelKind::Matrix => c.matrix,
        ChannelKind::Irc => c.irc,
        ChannelKind::Email => c.email,
        ChannelKind::Msteams => c.msteams,
        _ => None,
    }
}

/// Whether a channel is enabled in the configuration: it has an entry, and
/// the entry is enabled.
pub fn is_channel_enabled(config: &Config, channel: &ChannelKind) -> (r: bool)
    ensures
        r == (enabled_entry(config.channels_config, *channel) matches Some(e) && e.enabled),
{
    let c = &config.channels_config;
    let entry: Option<&ChannelEntry> = match channel {
        ChannelKind::Wechat => c.wechat.as_ref(),
        ChannelKind::Feishu => c.feishu.as_ref(),
        ChannelKind::Lark => c.lark.as_ref(),
        ChannelKind::Dingtalk => c.dingtalk.as_ref(),
        ChannelKind::Telegram => c.telegram.as_ref(),
        ChannelKind::Discord => c.discord.as_ref(),
        ChannelKind::Slack => c.slack.as_ref(),
        ChannelKind::Whatsapp => c.whatsapp.as_ref(),
        ChannelKind::Matrix => c.matrix.as_ref(),
        ChannelKind::Irc => c.irc.as_ref(),
        ChannelKind::Email => c.email.as_ref(),
        ChannelKind::Msteams => c.msteams.as_ref(),
        _ => None,
    };
    match entry {
        Some(e) => e.enabled,
        None => false,
    }
}

/// The variant name of a channel, as `{:?}` prints it.
pub open spec fn channel_variant_name(c: ChannelKind) -> Seq<char> {
    match c {
        ChannelKind::Web => "Web"@,
        ChannelKind::WebChat => "WebChat"@,
        ChannelKind::Cli => "Cli"@,
        ChannelKind::Wechat => "Wechat"@,
        ChannelKind::Feishu => "Feishu"@,
        ChannelKind::Lark => "Lark"@,
        ChannelKind::Dingtalk => "Dingtalk"@,
        ChannelKind::Telegram => "Telegram"@,
        ChannelKind::Discord => "Discord"@,
        ChannelKind::Slack => "Slack"@,
        ChannelKind::Whatsapp => "Whatsapp"@,
        ChannelKind::Matrix => "Matrix"@,
        ChannelKind::Irc => "Irc"@,
        ChannelKind::Email => "Email"@,
        ChannelKind::Msteams => "Msteams"@,
    }
}

/// The variant name of a channel.
pub fn channel_variant_str(c: &ChannelKind) -> (r: &'static str)
    ensures
        r@ == channel_variant_name(*c),
{
    match c {
        ChannelKind::Web => "Web",
        ChannelKind::WebChat => "WebChat",
        ChannelKind::Cli => "Cli",
        ChannelKind::Wechat => "Wechat",
        ChannelKind::Feishu => "Feishu",
        ChannelKind::Lark => "Lark",
        ChannelKind::Dingtalk => "Dingtalk",
        ChannelKind::Telegram => "Telegram",
        ChannelKind::Discord => "Discord",
        ChannelKind::Slack => "Slack",
        ChannelKind::Whatsapp => "Whatsapp",
        ChannelKind::Matrix => "Matrix",
        ChannelKind::Irc => "Irc",
        ChannelKind::Email => "Email",
        ChannelKind::Msteams => "Msteams",
    }
}

/// The channel a direct ingress request goes to: the CLI unless it names
/// one; a named channel other than the CLI must be enabled, else the request
/// is refused with "<Channel> channel is disabled".
pub fn ingress_channel(channel: Option<ChannelKind>, config: &Config) -> (r: Result<ChannelKind, String>)
    ensures
        ({
            let c = match channel {
                Some(c) => c,
                None => ChannelKind::Cli,
            };
            if c == ChannelKind::Cli || (enabled_entry(config.channels_config, c) matches Some(e)
                && e.enabled) {
                r == Ok::<ChannelKind, String>(c)
            } else {
                r matches Err(m) && m@ == channel_variant_name(c) + " channel is disabled"@
            }
        }),
{
    let c = match channel {
        Some(c) => c,
        None => ChannelKind::Cli,
    };
    let is_cli = match c {
        ChannelKind::Cli => true,
        _ => false,
    };
    if !is_cli && !is_channel_enabled(config, &c) {
        let mut m = owned(channel_variant_str(&c));
        push_str(&mut m, " channel is disabled");
        return Err(m);
    }
    Ok(c)
}

/// The entry that an optional reference points to.
pub open spec fn entry_of(e: Option<&ChannelEntry>) -> Option<ChannelEntry> {
    match e {
        Some(x) => Some(*x),
        None => None,
    }
}

/// The entry holding a channel's outbound credentials (Feishu and Lark only).
pub fn channel_entry_for_outbound<'a>(config: &'a Config, channel: &ChannelKind) -> (r: Option<
    &'a ChannelEntry,
>)
    ensures
        *channel == ChannelKind::Feishu ==> entry_of(r) == config.channels_config.feishu,
        *channel == ChannelKind::Lark ==> entry_of(r) == config.channels_config.lark,
        *channel != ChannelKind::Feishu && *channel != ChannelKind::Lark ==> r is None,
{
    match channel {
        ChannelKind::Feishu => config.channels_config.feishu.as_ref(),
        ChannelKind::Lark => config.channels_config.lark.as_ref(),
        _ => None,
    }
}

/// The entry holding a channel's webhook signing secret (WeChat, Feishu,
/// Lark and DingTalk).
pub fn channel_signing_entry<'a>(config: &'a Config, channel: &ChannelKind) -> (r: Option<
    &'a ChannelEntry,
>)
    ensures
        entry_of(r) == match *channel {
            ChannelKind::Wechat => config.channels_config.wechat,
            ChannelKind::Feishu => config.channels_config.feishu,
            ChannelKind::Lark => config.channels_config.lark,
            ChannelKind::Dingtalk => config.channels_config.dingtalk,
            _ => None,
        },
{
    match channel {
        ChannelKind::Wechat => config.channels_config.wechat.as_ref(),
        ChannelKind::Feishu => config.channels_config.feishu.as_ref(),
        ChannelKind::Lark => config.channels_config.lark.as_ref(),
        ChannelKind::Dingtalk => config.channels_config.dingtalk.as_ref(),
        _ => None,
    }
}

// ---------------------------------------------------------------------------
// Secrets
// ---------------------------------------------------------------------------

/// Where a secret comes from: a configured value, an environment variable
/// (by name), or nowhere.
pub enum SecretSource {
    Value(String),
    Env(String),
    Missing,
}

/// Whether a secret source is the value `v`.
pub open spec fn is_value(s: SecretSource, v: Seq<char>) -> bool {
    s matches SecretSource::Value(x) && x@ == v
}

/// Whether a secret source is the environment variable named `k`.
pub open spec fn is_env(s: SecretSource, k: Seq<char>) -> bool {
    s matches SecretSource::Env(x) && x@ == k
}

/// The view of an optional string.
pub open spec fn ostr(s: Option<String>) -> Option<Seq<char>> {
    match s {
        Some(v) => Some(v@),
        None => None,
    }
}

/// Where a Feishu secret comes from: the direct value when it is configured;
/// else the environment variable named by the entry's env field or, failing
/// that, by `extra[env_key]`; else `extra[legacy_key]` when configured.
pub open spec fn secret_source_spec(
    direct: Option<Seq<char>>,
    env_field: Option<Seq<char>>,
    extra: Seq<(String, MetaValue)>,
    env_key: Seq<char>,
    legacy_key: Seq<char>,
    s: SecretSource,
) -> bool {
    if direct is Some && configured_secret(direct->0) {
        is_value(s, direct->0)
    } else if env_field is Some {
        is_env(s, env_field->0)
    } else if meta_get(extra, env_key) is Some {
        is_env(s, meta_get(extra, env_key)->0)
    } else if meta_get(extra, legacy_key) is Some && configured_secret(meta_get(extra, legacy_key)->0) {
        is_value(s, meta_get(extra, legacy_key)->0)
    } else {
        s is Missing
    }
}

fn secret_source(
    direct: &Option<String>,
    env_field: &Option<String>,
    extra: &Vec<(String, MetaValue)>,
    env_key: &str,
    legacy_key: &str,
) -> (r: SecretSource)
    ensures
        secret_source_spec(ostr(*direct), ostr(*env_field), extra@, env_key@, legacy_key@, r),
{
    if let Some(d) = direct {
        if FeishuSecurityConfig::is_configured_secret(d.as_str()) {
            return SecretSource::Value(d.clone());
        }
    }
    if let Some(k) = env_field {
        return SecretSource::Env(k.clone());
    }
    if let Some(k) = crate::message::metadata_text(extra, env_key) {
        return SecretSource::Env(k);
    }
    if let Some(l) = crate::message::metadata_text(extra, legacy_key) {
        if FeishuSecurityConfig::is_configured_secret(l.as_str()) {
            return SecretSource::Value(l);
        }
    }
    SecretSource::Missing
}

/// Where the verification token of a channel entry comes from.
pub fn verification_token_source(entry: Option<&ChannelEntry>) -> (r: SecretSource)
    ensures
        entry is None ==> r is Missing,
        entry matches Some(e) ==> secret_source_spec(
            ostr(e.verification_token),
            ostr(e.verification_token_env),
            e.extra@,
            "verification_token_env"@,
            "verification_token"@,
            r,
        ),
{
    match entry {
        None => SecretSource::Missing,
        Some(e) => secret_source(
            &e.verification_token,
            &e.verification_token_env,
            &e.extra,
            "verification_token_env",
            "verification_token",
        ),
    }
}

/// Where the encrypt key of a channel entry comes from.
pub fn encrypt_key_source(entry: Option<&ChannelEntry>) -> (r: SecretSource)
    ensures
        entry is None ==> r is Missing,
        entry matches Some(e) ==> secret_source_spec(
            ostr(e.encrypt_key),
            ostr(e.encrypt_key_env),
            e.extra@,
            "encrypt_key_env"@,
            "encrypt_key"@,
            r,
        ),
{
    match entry {
        None => SecretSource::Missing,
        Some(e) => secret_source(
            &e.encrypt_key,
            &e.encrypt_key_env,
            &e.extra,
            "encrypt_key_env",
            "encrypt_key",
        ),
    }
}

/// A secret read from the environment, kept only when it is configured.
pub fn configured_env_secret(value: Option<String>) -> (r: Option<String>)
    ensures
        r matches Some(v) ==> value == Some(v) && configured_secret(v@),
        r is None ==> (value matches Some(v) ==> !configured_secret(v@)),
{
    match value {
        Some(v) => if FeishuSecurityConfig::is_configured_secret(v.as_str()) {
            Some(v)
        } else {
            None
        },
        None => None,
    }
}

/// The security mode setting of an entry: its own field, else `extra["security_mode"]`.
pub open spec fn mode_setting(entry: Option<ChannelEntry>) -> Option<Seq<char>> {
    match entry {
        None => None,
        Some(e) => match e.security_mode {
            Some(m) => Some(m@),
            None => meta_get(e.extra@, "security_mode"@),
        },
    }
}

impl FeishuSecurityConfig {
    /// The security configuration of an entry, with its secrets already
    /// resolved. Dev and default modes are always reported insecure.
    pub fn from_entry(
        entry: Option<&ChannelEntry>,
        verification_token: Option<String>,
        encrypt_key: Option<String>,
    ) -> (r: Self)
        ensures
            r.mode == mode_from_spec(mode_setting(entry_of(entry))),
            r.verification_token == verification_token,
            r.encrypt_key == encrypt_key,
            r.insecure == (r.mode == FeishuSecurityMode::Dev || r.mode == FeishuSecurityMode::Default),
    {
        let setting: Option<String> = match entry {
            None => None,
            Some(e) => match &e.security_mode {
                Some(m) => Some(m.clone()),
                None => crate::message::metadata_text(&e.extra, "security_mode"),
            },
        };
        let mode = match &setting {
            Some(m) => FeishuSecurityMode::from_str(Some(m.as_str())),
            None => FeishuSecurityMode::from_str(None),
        };
        let insecure = match mode {
            FeishuSecurityMode::Dev | FeishuSecurityMode::Default => true,
            _ => false,
        };
        FeishuSecurityConfig { mode, verification_token, encrypt_key, insecure }
    }
}

/// Where a webhook signing secret comes from: `extra["signing_secret"]`, else
/// the environment variable named by `extra["signing_secret_env"]`.
pub fn signing_secret_source(entry: Option<&ChannelEntry>) -> (r: SecretSource)
    ensures
        entry is None ==> r is Missing,
        entry matches Some(e) ==> {
            if meta_get(e.extra@, "signing_secret"@) is Some {
                is_value(r, meta_get(e.extra@, "signing_secret"@)->0)
            } else if meta_get(e.extra@, "signing_secret_env"@) is Some {
                is_env(r, meta_get(e.extra@, "signing_secret_env"@)->0)
            } else {
                r is Missing
            }
        },
{
    match entry {
        None => SecretSource::Missing,
        Some(e) => {
            if let Some(v) = crate::message::metadata_text(&e.extra, "signing_secret") {
                return SecretSource::Value(v);
            }
            if let Some(k) = crate::message::metadata_text(&e.extra, "signing_secret_env") {
                return SecretSource::Env(k);
            }
            SecretSource::Missing
        },
    }
}

/// A signing secret read from the environment, kept when it is not blank.
pub fn nonblank_env_secret(value: Option<String>) -> (r: Option<String>)
    ensures
        r matches Some(v) ==> value == Some(v) && trim_seq(v@).len() > 0,
        r is None ==> (value matches Some(v) ==> trim_seq(v@).len() == 0),
{
    match value {
        Some(v) => if trimmed_chars(v.as_str()).len() > 0 {
            Some(v)
        } else {
            None
        },
        None => None,
    }
}

// ---------------------------------------------------------------------------
// Inbound concurrency
// ---------------------------------------------------------------------------

/// The number of inbound requests in flight.
pub struct InboundSlots {
    pub active: usize,
}

/// A held inbound slot; release it when the request is done.
pub struct InboundSlotGuard {
    held: bool,
}

/// The inbound concurrency limit: the agent default, else the sub-agent one.
pub open spec fn inbound_limit(cfg: AgentDefaultsExtended) -> Option<u32> {
    match cfg.max_concurrent {
        Some(l) => Some(l),
        None => match cfg.subagents {
            Some(s) => s.max_concurrent,
            None => None,
        },
    }
}

impl InboundSlotGuard {
    /// Releases the slot.
    pub fn release(self, slots: &mut InboundSlots)
        ensures
            final(slots).active == released(old(slots).active),
    {
        if slots.active > 0 {
            slots.active = slots.active - 1;
        }
    }
}

/// The count after a release.
pub open spec fn released(active: usize) -> usize {
    if active > 0 {
        (active - 1) as usize
    } else {
        0
    }
}

/// What taking an inbound slot does: `None` when no slot is needed, `Some`
/// of whether it is taken, with the count afterwards.
pub open spec fn slot_outcome(limit: Option<u32>, active: usize) -> (Option<bool>, usize) {
    match limit {
        None => (None, active),
        Some(l) => if l == 0 {
            (None, active)
        } else if active >= l {
            (Some(false), active)
        } else {
            (Some(true), (active + 1) as usize)
        },
    }
}

/// Takes an inbound slot: no slot is needed without a (non-zero) limit;
/// with one, a slot is taken while fewer than the limit are in flight, and
/// the request is refused otherwise.
pub fn acquire_inbound_slot(cfg: &Config, slots: &mut InboundSlots) -> (r: Result<
    Option<InboundSlotGuard>,
    String,
>)
    ensures
        final(slots).active == slot_outcome(inbound_limit(cfg.agent_defaults_extended), old(slots).active).1,
        slot_outcome(inbound_limit(cfg.agent_defaults_extended), old(slots).active).0 is None ==> (r matches Ok(None)),
        slot_outcome(inbound_limit(cfg.agent_defaults_extended), old(slots).active).0 == Some(true) ==> (r matches Ok(Some(_))),
        slot_outcome(inbound_limit(cfg.agent_defaults_extended), old(slots).active).0 == Some(false) ==> (r matches Err(e) && e@
            == "too many concurrent inbound requests (limit="@ + crate::fmt::dec(
            inbound_limit(cfg.agent_defaults_extended)->0 as nat,
        ) + ")"@),
{
    let limit = match cfg.agent_defaults_extended.max_concurrent {
        Some(l) => Some(l),
        None => match cfg.agent_defaults_extended.subagents {
            Some(s) => s.max_concurrent,
            None => None,
        },
    };
    let limit = match limit {
        Some(l) => l,
        None => return Ok(None),
    };
    if limit == 0 {
        return Ok(None);
    }
    if slots.active >= limit as usize {
        let mut msg = owned("too many concurrent inbound requests (limit=");
        crate::fmt::push_dec(&mut msg, limit as u64);
        push_str(&mut msg, ")");
        return Err(msg);
    }
    slots.active = slots.active + 1;
    Ok(Some(InboundSlotGuard { held: true }))
}

/// Law: a slot that was taken and released can be taken again, and the
/// count is back where it was; at the limit the next request is refused.
pub proof fn lemma_released_slot_is_reusable(limit: Option<u32>, active: usize)
    requires
        slot_outcome(limit, active).0 == Some(true),
    ensures
        released(slot_outcome(limit, active).1) == active,
        slot_outcome(limit, released(slot_outcome(limit, active).1)) == slot_outcome(limit, active),
        (limit->0 as int) == active + 1 ==> slot_outcome(limit, slot_outcome(limit, active).1).0 == Some(
            false,
        ),
{
}

// ---------------------------------------------------------------------------
// Inbound metadata
// ---------------------------------------------------------------------------

/// Whether a metadata value means "true": the boolean true, or the text
/// "true" or "1".
pub open spec fn truthy(v: MetaValue) -> bool {
    match v {
        MetaValue::Bool(b) => b,
        MetaValue::Str(s) => s@ == "true"@ || s@ == "1"@,
        _ => false,
    }
}

/// The views of a list of keys.
pub open spec fn keys_view(keys: Seq<&str>) -> Seq<Seq<char>> {
    keys.map_values(|k: &str| k@)
}

/// Whether the metadata value under `key` is truthy.
pub open spec fn key_truthy(m: Seq<(String, MetaValue)>, key: Seq<char>) -> bool {
    match meta_lookup(m, key) {
        Some(v) => truthy(v),
        None => false,
    }
}

/// Whether one of `keys` holds a truthy value.
pub open spec fn metadata_bool_spec(m: Seq<(String, MetaValue)>, keys: Seq<Seq<char>>) -> bool {
    exists|i: int| 0 <= i < keys.len() && #[trigger] key_truthy(m, keys[i])
}

/// Whether one of `keys` holds a truthy metadata value.
pub fn metadata_bool(inbound: &InboundMessage, keys: &[&str]) -> (r: bool)
    ensures
        r == metadata_bool_spec(inbound.metadata@, keys_view(keys@)),
{
    let mut i: usize = 0;
    while i < keys.len()
        invariant
            i <= keys.len(),
            forall|j: int| 0 <= j < i ==> !key_truthy(inbound.metadata@, #[trigger] keys@[j]@),
        decreases keys.len() - i,
    {
        let hit = match metadata_index(&inbound.metadata, keys[i]) {
            Some(k) => match &inbound.metadata[k].1 {
                MetaValue::Bool(b) => *b,
                MetaValue::Str(s) => str_is(s.as_str(), "true") || str_is(s.as_str(), "1"),
                _ => false,
            },
            None => false,
        };
        if hit {
            assert(keys_view(keys@)[i as int] == keys@[i as int]@);
            assert(key_truthy(inbound.metadata@, keys_view(keys@)[i as int]));
            return true;
        }
        i += 1;
    }
    assert forall|j: int| 0 <= j < keys_view(keys@).len() implies !key_truthy(
        inbound.metadata@,
        #[trigger] keys_view(keys@)[j],
    ) by {
        assert(keys_view(keys@)[j] == keys@[j]@);
    }
    false
}

/// The text of the first of `keys` whose metadata value is a string.
pub open spec fn metadata_str_spec(m: Seq<(String, MetaValue)>, keys: Seq<Seq<char>>) -> Option<
    Seq<char>,
>
    decreases keys.len(),
{
    if keys.len() == 0 {
        None
    } else if meta_get(m, keys[0]) is Some {
        meta_get(m, keys[0])
    } else {
        metadata_str_spec(m, keys.drop_first())
    }
}

/// The text of the first of `keys` whose metadata value is a string.
pub fn metadata_str(inbound: &InboundMessage, keys: &[&str]) -> (r: Option<String>)
    ensures
        r matches Some(v) ==> metadata_str_spec(inbound.metadata@, keys_view(keys@)) == Some(v@),
        r is None ==> metadata_str_spec(inbound.metadata@, keys_view(keys@)) is None,
{
    let ghost all = keys_view(keys@);
    let mut i: usize = 0;
    assert(all.subrange(0, all.len() as int) =~= all);
    while i < keys.len()
        invariant
            all == keys_view(keys@),
            i <= keys.len(),
            metadata_str_spec(inbound.metadata@, all) == metadata_str_spec(
                inbound.metadata@,
                all.subrange(i as int, all.len() as int),
            ),
        decreases keys.len() - i,
    {
        assert(all.subrange(i as int, all.len() as int).drop_first() =~= all.subrange(
            i + 1,
            all.len() as int,
        ));
        assert(all.subrange(i as int, all.len() as int)[0] == keys@[i as int]@);
        let v = crate::message::metadata_text(&inbound.metadata, keys[i]);
        if v.is_some() {
            return v;
        }
        i += 1;
    }
    None
}

/// A number's text without its leading '+', if any.
pub open spec fn unsigned_part(s: Seq<char>) -> Seq<char> {
    if s.len() > 0 && s[0] == '+' {
        s.drop_first()
    } else {
        s
    }
}

/// Whether every character is an ASCII digit.
pub open spec fn all_digits(d: Seq<char>) -> bool {
    forall|i: int| 0 <= i < d.len() ==> crate::feishu::is_digit(#[trigger] d[i])
}

/// `u32::from_str`: an optional '+', then one or more ASCII digits whose
/// value fits in `u32`.
pub open spec fn parse_u32_spec(s: Seq<char>) -> Option<u32> {
    let d = unsigned_part(s);
    if d.len() > 0 && all_digits(d) && crate::feishu::digits_value(d) <= u32::MAX {
        Some(crate::feishu::digits_value(d) as u32)
    } else {
        None
    }
}

/// Parses a decimal `u32` as `u32::from_str` does.
pub fn parse_u32(s: &str) -> (r: Option<u32>)
    ensures
        r == parse_u32_spec(s@),
{
    let c = chars_of(s);
    let start: usize = if c.len() > 0 && c[0] == '+' {
        1
    } else {
        0
    };
    let ghost d = unsigned_part(s@);
    assert(c@.subrange(start as int, c@.len() as int) =~= d);
    if start >= c.len() {
        return None;
    }
    let mut v: u64 = 0;
    let mut k = start;
    while k < c.len()
        invariant
            start <= k <= c@.len(),
            start < c@.len(),
            d == unsigned_part(s@),
            d == c@.subrange(start as int, c@.len() as int),
            forall|t: int| start <= t < k ==> crate::feishu::is_digit(#[trigger] c@[t]),
            v == crate::feishu::digits_value(c@.subrange(start as int, k as int)),
            v <= u32::MAX,
        decreases c.len() - k,
    {
        let ch = c[k];
        if !('0' <= ch && ch <= '9') {
            assert(!crate::feishu::is_digit(d[k - start]));
            assert(!all_digits(d));
            return None;
        }
        let digit: u64 = (ch as u32 - 48) as u64;
        assert(c@.subrange(start as int, k + 1).drop_last() =~= c@.subrange(start as int, k as int));
        let nv = v * 10 + digit;
        if nv > u32::MAX as u64 {
            proof {
                assert(d.take((k + 1 - start) as int) =~= c@.subrange(start as int, k + 1));
                if all_digits(d) {
                    lemma_digits_value_grows(d, (k + 1 - start) as int);
                }
            }
            return None;
        }
        v = nv;
        k += 1;
    }
    assert(c@.subrange(start as int, k as int) =~= d);
    assert(all_digits(d));
    Some(v as u32)
}

/// Lemma: a run of digits is worth at least any of its prefixes.
pub proof fn lemma_digits_value_grows(d: Seq<char>, n: int)
    requires
        0 <= n <= d.len(),
        forall|i: int| 0 <= i < d.len() ==> crate::feishu::is_digit(#[trigger] d[i]),
    ensures
        crate::feishu::digits_value(d) >= crate::feishu::digits_value(d.take(n)),
    decreases d.len() - n,
{
    if n < d.len() {
        lemma_digits_value_grows(d, n + 1);
        assert(d.take(n + 1).drop_last() =~= d.take(n));
        let a = crate::feishu::digits_value(d.take(n));
        let b = ((d.take(n + 1).last() as u32) - 48) as nat;
        assert(a * 10 + b >= a) by (nonlinear_arith)
            requires
                a >= 0,
                b >= 0,
        ;
    } else {
        assert(d.take(n) =~= d);
    }
}

/// The `u32` of the first of `keys` present in the metadata: a number that
/// is a non-negative integer (`None` when it exceeds `u32`), or a text that
/// parses as `u32`; other values are passed over.
pub open spec fn metadata_u32_spec(m: Seq<(String, MetaValue)>, keys: Seq<Seq<char>>) -> Option<u32>
    decreases keys.len(),
{
    if keys.len() == 0 {
        None
    } else {
        match meta_lookup(m, keys[0]) {
            Some(MetaValue::Num(Some(n))) => if n <= u32::MAX {
                Some(n as u32)
            } else {
                None
            },
            Some(MetaValue::Str(s)) => if parse_u32_spec(s@) is Some {
                parse_u32_spec(s@)
            } else {
                metadata_u32_spec(m, keys.drop_first())
            },
            _ => metadata_u32_spec(m, keys.drop_first()),
        }
    }
}

/// The `u32` metadata value under the first usable key.
pub fn metadata_u32(inbound: &InboundMessage, keys: &[&str]) -> (r: Option<u32>)
    ensures
        r == metadata_u32_spec(inbound.metadata@, keys_view(keys@)),
{
    let ghost all = keys_view(keys@);
    let mut i: usize = 0;
    assert(all.subrange(0, all.len() as int) =~= all);
    while i < keys.len()
        invariant
            all == keys_view(keys@),
            i <= keys.len(),
            metadata_u32_spec(inbound.metadata@, all) == metadata_u32_spec(
                inbound.metadata@,
                all.subrange(i as int, all.len() as int),
            ),
        decreases keys.len() - i,
    {
        assert(all.subrange(i as int, all.len() as int).drop_first() =~= all.subrange(
            i + 1,
            all.len() as int,
        ));
        assert(all.subrange(i as int, all.len() as int)[0] == keys@[i as int]@);
        if let Some(k) = metadata_index(&inbound.metadata, keys[i]) {
            match &inbound.metadata[k].1 {
                MetaValue::Num(Some(n)) => {
                    if *n <= u32::MAX as u64 {
                        return Some(*n as u32);
                    } else {
                        return None;
                    }
                },
                MetaValue::Str(s) => {
                    let p = parse_u32(s.as_str());
                    if p.is_some() {
                        return p;
                    }
                },
                _ => {},
            }
        }
        i += 1;
    }
    None
}

/// The non-empty texts of an array's string items.
pub open spec fn nonempty_texts(items: Seq<Option<String>>) -> Seq<Seq<char>>
    decreases items.len(),
{
    if items.len() == 0 {
        seq![]
    } else {
        let rest = nonempty_texts(items.drop_last());
        match items.last() {
            Some(t) => if t@.len() > 0 {
                rest.push(t@)
            } else {
                rest
            },
            None => rest,
        }
    }
}

/// The strings under the first of `keys` that gives any: an array's
/// non-empty string items, or a non-empty text.
pub open spec fn metadata_strings_spec(m: Seq<(String, MetaValue)>, keys: Seq<Seq<char>>) -> Seq<
    Seq<char>,
>
    decreases keys.len(),
{
    if keys.len() == 0 {
        seq![]
    } else {
        match meta_lookup(m, keys[0]) {
            Some(MetaValue::Array(items)) => if nonempty_texts(items@).len() > 0 {
                nonempty_texts(items@)
            } else {
                metadata_strings_spec(m, keys.drop_first())
            },
            Some(MetaValue::Str(s)) => if s@.len() > 0 {
                seq![s@]
            } else {
                metadata_strings_spec(m, keys.drop_first())
            },
            _ => metadata_strings_spec(m, keys.drop_first()),
        }
    }
}

fn nonempty_items(items: &Vec<Option<String>>) -> (r: Vec<String>)
    ensures
        crate::text::strings_view(r@) == nonempty_texts(items@),
{
    let mut out: Vec<String> = Vec::new();
    let mut i: usize = 0;
    while i < items.len()
        invariant
            i <= items.len(),
            crate::text::strings_view(out@) == nonempty_texts(items@.take(i as int)),
        decreases items.len() - i,
    {
        assert(items@.take(i + 1).drop_last() =~= items@.take(i as int));
        match &items[i] {
            Some(t) => {
                let c = chars_of(t.as_str());
                if c.len() > 0 {
                    out.push(t.clone());
                    assert(crate::text::strings_view(out@) =~= nonempty_texts(items@.take(i + 1)));
                } else {
                    assert(crate::text::strings_view(out@) =~= nonempty_texts(items@.take(i + 1)));
                }
            },
            None => {
                assert(crate::text::strings_view(out@) =~= nonempty_texts(items@.take(i + 1)));
            },
        }
        i += 1;
    }
    assert(items@.take(i as int) =~= items@);
    out
}

/// The image URLs (or texts) under the first of `keys` that gives any.
pub fn metadata_string_array(inbound: &InboundMessage, keys: &[&str]) -> (r: Vec<String>)
    ensures
        crate::text::strings_view(r@) == metadata_strings_spec(inbound.metadata@, keys_view(keys@)),
{
    let ghost all = keys_view(keys@);
    let mut i: usize = 0;
    assert(all.subrange(0, all.len() as int) =~= all);
    while i < keys.len()
        invariant
            all == keys_view(keys@),
            i <= keys.len(),
            metadata_strings_spec(inbound.metadata@, all) == metadata_strings_spec(
                inbound.metadata@,
                all.subrange(i as int, all.len() as int),
            ),
        decreases keys.len() - i,
    {
        assert(all.subrange(i as int, all.len() as int).drop_first() =~= all.subrange(
            i + 1,
            all.len() as int,
        ));
        assert(all.subrange(i as int, all.len() as int)[0] == keys@[i as int]@);
        if let Some(k) = metadata_index(&inbound.metadata, keys[i]) {
            match &inbound.metadata[k].1 {
                MetaValue::Array(items) => {
                    let urls = nonempty_items(items);
                    if urls.len() > 0 {
                        return urls;
                    }
                },
                MetaValue::Str(t) => {
                    if chars_of(t.as_str()).len() > 0 {
                        let mut v: Vec<String> = Vec::new();
                        v.push(t.clone());
                        assert(crate::text::strings_view(v@) =~= seq![t@]);
                        return v;
                    }
                },
                _ => {},
            }
        }
        i += 1;
    }
    let v: Vec<String> = Vec::new();
    assert(crate::text::strings_view(v@) =~= Seq::<Seq<char>>::empty());
    v
}

/// The metadata keys that request desktop vision.
pub open spec fn vision_request_keys() -> Seq<Seq<char>> {
    seq!["desktop_vision"@, "desktopVision"@, "include_desktop_vision"@, "includeDesktopVision"@]
}

/// The metadata keys that carry desktop screenshots.
pub open spec fn vision_image_keys() -> Seq<Seq<char>> {
    seq!["desktop_vision_images"@, "desktopVisionImages"@, "screen_images"@, "screenImages"@]
}

/// The desktop screenshots to send with a request: none unless desktop
/// vision is enabled or the request asks for it.
pub fn collect_desktop_vision_images(cfg: &Config, inbound: &InboundMessage) -> (r: Vec<String>)
    ensures
        !cfg.desktop_vision_enabled && !metadata_bool_spec(inbound.metadata@, vision_request_keys())
            ==> r@.len() == 0,
        cfg.desktop_vision_enabled || metadata_bool_spec(inbound.metadata@, vision_request_keys())
            ==> crate::text::strings_view(r@) == metadata_strings_spec(
            inbound.metadata@,
            vision_image_keys(),
        ),
{
    let request_keys: [&str; 4] = [
        "desktop_vision",
        "desktopVision",
        "include_desktop_vision",
        "includeDesktopVision",
    ];
    assert(keys_view(request_keys@) =~= vision_request_keys());
    let requested = metadata_bool(inbound, &request_keys);
    if !cfg.desktop_vision_enabled && !requested {
        return Vec::new();
    }
    let image_keys: [&str; 4] = [
        "desktop_vision_images",
        "desktopVisionImages",
        "screen_images",
        "screenImages",
    ];
    assert(keys_view(image_keys@) =~= vision_image_keys());
    metadata_string_array(inbound, &image_keys)
}

} // verus!
