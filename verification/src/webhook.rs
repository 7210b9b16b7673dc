//! The channel webhook's decisions: the Feishu security stages (decryption,
//! verification token, URL verification), the event filters, the dedupe
//! key, the Feishu session isolation and routing mode, and where a reply goes.
//! The HTTP layer reads the request into the plain values these take.
use vstd::prelude::*;
use crate::crypto::{decrypt_feishu_payload, feishu_decrypt_succeeds, feishu_plaintext};
use crate::gateway::{
    opt_view, verify_feishu_verification_token, verify_token_spec, FeishuSecurityConfig,
    FeishuSecurityMode,
};
use crate::gateway::{ostr, ChannelEntry, Config, SecretSource};
use crate::json::{json_error, json_parse_error, json_str, json_text};
use crate::message::{meta_get, meta_lookup, metadata_insert, metadata_text, InboundMessage, MetaValue, ReplyTarget};
use crate::replay::{dedup_step, sent_key, window_ms, DedupCache, OutboundMsgCache};
use crate::strmap::fresh;
use crate::session::ChannelKind;
use crate::text::{
    ascii_lower_seq, ascii_lower_vec, chars_of, owned, push_str, seq_starts_with, str_is, str_trim,
    string_of, trim_seq,
};

verus! {

/// A refused webhook request: the HTTP status and the error message.
pub struct WebhookRejection {
    pub status: u16,
    pub message: String,
}

/// Whether `r` is the refusal with this status and message.
pub open spec fn refused<T>(r: Result<T, WebhookRejection>, status: u16, message: Seq<char>) -> bool {
    r matches Err(x) && x.status == status && x.message@ == message
}

fn refuse<T>(status: u16, message: &str) -> (r: Result<T, WebhookRejection>)
    ensures
        refused(r, status, message@),
{
    Err(WebhookRejection { status, message: owned(message) })
}

// ---------------------------------------------------------------------------
// Feishu security: the raw body
// ---------------------------------------------------------------------------

/// What the gateway read from a raw Feishu body: whether it is JSON, and its
/// `encrypt` field when that is a string.
pub struct FeishuRawBody {
    pub is_json: bool,
    pub encrypt: Option<String>,
}

/// Reads a raw Feishu body.
pub fn feishu_raw_body(raw: &str) -> (r: FeishuRawBody)
    ensures
        r.is_json == (json_parse_error(raw@) is None),
        ostr(r.encrypt) == json_text(raw@, "/encrypt"@),
{
    FeishuRawBody { is_json: json_error(raw).is_none(), encrypt: json_str(raw, "/encrypt") }
}

/// Whether a raw Feishu body is encrypted: its `encrypt` field is a string.
pub fn is_encrypted_payload(raw: &str) -> (r: bool)
    ensures
        r == (json_text(raw@, "/encrypt"@) is Some),
{
    json_str(raw, "/encrypt").is_some()
}

/// The content type of a Feishu request, for diagnostics: "application/json"
/// when the header starts with it (ASCII case-insensitively), "other" for
/// another header, "missing" without one.
pub open spec fn content_type_label(content_type: Option<Seq<char>>) -> Seq<char> {
    match content_type {
        None => "missing"@,
        Some(v) => if seq_starts_with(ascii_lower_seq(v), "application/json"@) {
            "application/json"@
        } else {
            "other"@
        },
    }
}

/// The label of a request's content type header.
pub fn feishu_request_content_type(content_type: Option<&str>) -> (r: &'static str)
    ensures
        r@ == content_type_label(match content_type {
            Some(v) => Some(v@),
            None => None,
        }),
{
    match content_type {
        None => "missing",
        Some(v) => {
            let c = chars_of(v);
            let lower = ascii_lower_vec(c.as_slice());
            if crate::feishu::starts_with_lit(lower.as_slice(), "application/json") {
                "application/json"
            } else {
                "other"
            }
        },
    }
}

/// Whether a security mode checks the verification token.
pub open spec fn checks_token(m: FeishuSecurityMode) -> bool {
    m == FeishuSecurityMode::Token || m == FeishuSecurityMode::Encrypted
}

/// The first Feishu security stage. An invalid mode is refused; the body
/// must be JSON; in encrypted mode it must be encrypted, the encrypt key must
/// be configured and the payload must decrypt. Returns the decrypted body, or
/// `None` when the raw body stands (dev and token modes never decrypt).
pub fn feishu_open_body(cfg: &FeishuSecurityConfig, body: &FeishuRawBody) -> (r: Result<
    Option<String>,
    WebhookRejection,
>)
    ensures
        cfg.mode == FeishuSecurityMode::Invalid ==> refused(r, 400, "invalid_security_mode"@),
        cfg.mode != FeishuSecurityMode::Invalid && !body.is_json ==> refused(r, 400, "invalid_json"@),
        cfg.mode != FeishuSecurityMode::Invalid && cfg.mode != FeishuSecurityMode::Encrypted
            && body.is_json ==> r == Ok::<Option<String>, WebhookRejection>(None),
        cfg.mode == FeishuSecurityMode::Encrypted && body.is_json ==> match body.encrypt {
            None => refused(r, 401, "encrypted_payload_required"@),
            Some(e) => match cfg.encrypt_key {
                None => refused(r, 500, "encrypt_key_missing"@),
                Some(k) => if feishu_decrypt_succeeds(e@, k@) {
                    r matches Ok(Some(plain)) && feishu_plaintext(e@, k@, plain@)
                } else {
                    refused(r, 403, "decrypt_failed"@)
                },
            },
        },
{
    if let FeishuSecurityMode::Invalid = cfg.mode {
        return refuse(400, "invalid_security_mode");
    }
    if !body.is_json {
        return refuse(400, "invalid_json");
    }
    match cfg.mode {
        FeishuSecurityMode::Encrypted => {},
        _ => return Ok(None),
    }
    let encrypted = match &body.encrypt {
        Some(e) => e,
        None => return refuse(401, "encrypted_payload_required"),
    };
    let key = match &cfg.encrypt_key {
        Some(k) => k,
        None => return refuse(500, "encrypt_key_missing"),
    };
    match decrypt_feishu_payload(encrypted.as_str(), key.as_str()) {
        Ok(plain) => Ok(Some(plain)),
        Err(_) => refuse(403, "decrypt_failed"),
    }
}

// ---------------------------------------------------------------------------
// Feishu security: the verification token
// ---------------------------------------------------------------------------

/// The places a verification token may come from: four in the payload, two
/// request headers.
pub struct FeishuTokenCandidates {
    /// `token`
    pub top_level: Option<String>,
    /// `header.token`
    pub header: Option<String>,
    /// `event.token`
    pub event: Option<String>,
    /// `event.header.token`
    pub event_header: Option<String>,
    /// The `x-feishu-verification-token` header.
    pub x_feishu_header: Option<String>,
    /// The `x-lark-verification-token` header.
    pub x_lark_header: Option<String>,
}

/// A verification token and where it was found.
pub struct FeishuTokenSource {
    pub value: String,
    pub source: &'static str,
}

/// Whether an optional string is present and not empty.
pub open spec fn nonempty(o: Option<String>) -> bool {
    o matches Some(s) && s@.len() > 0
}

/// The first non-empty token, in the order of the payload places and then
/// the headers, with the name of its place.
pub open spec fn first_token(c: FeishuTokenCandidates) -> Option<(Seq<char>, Seq<char>)> {
    if nonempty(c.top_level) {
        Some((c.top_level->0@, "top_level.token"@))
    } else if nonempty(c.header) {
        Some((c.header->0@, "header.token"@))
    } else if nonempty(c.event) {
        Some((c.event->0@, "event.token"@))
    } else if nonempty(c.event_header) {
        Some((c.event_header->0@, "event.header.token"@))
    } else if nonempty(c.x_feishu_header) {
        Some((c.x_feishu_header->0@, "header.x-feishu-verification-token"@))
    } else if nonempty(c.x_lark_header) {
        Some((c.x_lark_header->0@, "header.x-lark-verification-token"@))
    } else {
        None
    }
}

/// The token of a source, as the check sees it.
pub open spec fn source_token(r: Option<FeishuTokenSource>) -> Option<Seq<char>> {
    match r {
        Some(s) => Some(s.value@),
        None => None,
    }
}

fn candidate(o: &Option<String>) -> (r: Option<&String>)
    ensures
        nonempty(*o) ==> r == Some(&o->0),
        !nonempty(*o) ==> r is None,
{
    match o {
        Some(s) => if s.as_str().unicode_len() > 0 {
            Some(s)
        } else {
            None
        },
        None => None,
    }
}

/// Finds the request's verification token.
pub fn extract_feishu_verification_token(c: &FeishuTokenCandidates) -> (r: Option<FeishuTokenSource>)
    ensures
        r is Some <==> first_token(*c) is Some,
        r matches Some(s) ==> first_token(*c) == Some((s.value@, s.source@)),
{
    if let Some(v) = candidate(&c.top_level) {
        return Some(FeishuTokenSource { value: v.clone(), source: "top_level.token" });
    }
    if let Some(v) = candidate(&c.header) {
        return Some(FeishuTokenSource { value: v.clone(), source: "header.token" });
    }
    if let Some(v) = candidate(&c.event) {
        return Some(FeishuTokenSource { value: v.clone(), source: "event.token" });
    }
    if let Some(v) = candidate(&c.event_header) {
        return Some(FeishuTokenSource { value: v.clone(), source: "event.header.token" });
    }
    if let Some(v) = candidate(&c.x_feishu_header) {
        return Some(
            FeishuTokenSource { value: v.clone(), source: "header.x-feishu-verification-token" },
        );
    }
    if let Some(v) = candidate(&c.x_lark_header) {
        return Some(
            FeishuTokenSource { value: v.clone(), source: "header.x-lark-verification-token" },
        );
    }
    None
}

/// What the gateway read from the (decrypted) Feishu payload.
pub struct FeishuSecuredBody {
    pub is_json: bool,
    pub tokens: FeishuTokenCandidates,
    /// The `type` field, when it is a string.
    pub event_type: Option<String>,
    /// The `challenge` field, when it is a string.
    pub challenge: Option<String>,
}

/// Reads the (decrypted) Feishu payload, with the two token headers.
pub fn feishu_secured_body(body: &str, x_feishu_header: Option<String>, x_lark_header: Option<String>) -> (r:
    FeishuSecuredBody)
    ensures
        r.is_json == (json_parse_error(body@) is None),
        ostr(r.tokens.top_level) == json_text(body@, "/token"@),
        ostr(r.tokens.header) == json_text(body@, "/header/token"@),
        ostr(r.tokens.event) == json_text(body@, "/event/token"@),
        ostr(r.tokens.event_header) == json_text(body@, "/event/header/token"@),
        r.tokens.x_feishu_header == x_feishu_header,
        r.tokens.x_lark_header == x_lark_header,
        ostr(r.event_type) == json_text(body@, "/type"@),
        ostr(r.challenge) == json_text(body@, "/challenge"@),
{
    FeishuSecuredBody {
        is_json: json_error(body).is_none(),
        tokens: FeishuTokenCandidates {
            top_level: json_str(body, "/token"),
            header: json_str(body, "/header/token"),
            event: json_str(body, "/event/token"),
            event_header: json_str(body, "/event/header/token"),
            x_feishu_header,
            x_lark_header,
        },
        event_type: json_str(body, "/type"),
        challenge: json_str(body, "/challenge"),
    }
}

/// The token that the check compares: the first candidate's value.
pub open spec fn checked_token(c: FeishuTokenCandidates) -> Option<Seq<char>> {
    match first_token(c) {
        Some(t) => Some(t.0),
        None => None,
    }
}

/// The second Feishu security stage, on the payload after decryption. It
/// must be JSON; in token and encrypted modes its verification token must
/// match (a missing token and a mismatch are 401, another failure 500). A
/// URL verification request is answered with its non-empty challenge.
pub fn feishu_check_body(cfg: &FeishuSecurityConfig, body: &FeishuSecuredBody) -> (r: Result<
    Option<String>,
    WebhookRejection,
>)
    ensures
        !body.is_json ==> refused(r, 400, "invalid_json"@),
        body.is_json && checks_token(cfg.mode) ==> match verify_token_spec(
            *cfg,
            checked_token(body.tokens),
        ) {
            Ok(false) => refused(r, 401, "token_mismatch"@),
            Err(m) => if m == "verification_token missing from request"@ {
                refused(r, 401, "token_missing"@)
            } else {
                refused(r, 500, "internal_error"@)
            },
            Ok(true) => url_verification_outcome(body.event_type, body.challenge, r),
        },
        body.is_json && !checks_token(cfg.mode) ==> url_verification_outcome(
            body.event_type,
            body.challenge,
            r,
        ),
{
    if !body.is_json {
        return refuse(400, "invalid_json");
    }
    let check = match cfg.mode {
        FeishuSecurityMode::Token | FeishuSecurityMode::Encrypted => true,
        _ => false,
    };
    if check {
        let token = extract_feishu_verification_token(&body.tokens);
        let checked: Option<&str> = match &token {
            Some(t) => Some(t.value.as_str()),
            None => None,
        };
        assert(opt_view(checked) == checked_token(body.tokens));
        match verify_feishu_verification_token(cfg, checked) {
            Ok(true) => {},
            Ok(false) => return refuse(401, "token_mismatch"),
            Err(m) => {
                if str_is(m.as_str(), "verification_token missing from request") {
                    return refuse(401, "token_missing");
                }
                return refuse(500, "internal_error");
            },
        }
    }
    answer_url_verification(&body.event_type, &body.challenge)
}

/// A URL verification request (`type` is "url_verification") is answered
/// with its challenge, which must not be empty; other events go on.
pub open spec fn url_verification_outcome(
    event_type: Option<String>,
    challenge: Option<String>,
    r: Result<Option<String>, WebhookRejection>,
) -> bool {
    if event_type matches Some(t) && t@ == "url_verification"@ {
        if nonempty(challenge) {
            r matches Ok(Some(c)) && c@ == challenge->0@
        } else {
            refused(r, 400, "missing_challenge"@)
        }
    } else {
        r == Ok::<Option<String>, WebhookRejection>(None)
    }
}

fn answer_url_verification(event_type: &Option<String>, challenge: &Option<String>) -> (r: Result<
    Option<String>,
    WebhookRejection,
>)
    ensures
        url_verification_outcome(*event_type, *challenge, r),
{
    let is_verification = match event_type {
        Some(t) => str_is(t.as_str(), "url_verification"),
        None => false,
    };
    if !is_verification {
        return Ok(None);
    }
    match candidate(challenge) {
        Some(c) => Ok(Some(c.clone())),
        None => refuse(400, "missing_challenge"),
    }
}

// ---------------------------------------------------------------------------
// Event fields, filters and dedupe
// ---------------------------------------------------------------------------

/// The event fields the webhook reads, each when it is a string.
pub struct WebhookEventFields {
    /// `header.event_id`
    pub header_event_id: Option<String>,
    /// `event_id`
    pub top_level_event_id: Option<String>,
    /// `header.event_type`
    pub header_event_type: Option<String>,
    /// `event.type`
    pub event_inner_type: Option<String>,
    /// `type`
    pub top_level_type: Option<String>,
    /// `event.sender.sender_type`
    pub sender_type: Option<String>,
    /// `event.message.message_type`
    pub message_type: Option<String>,
    /// `event.message.message_id`
    pub message_id: Option<String>,
}

/// Reads the event fields of a webhook payload.
pub fn webhook_event_fields(payload: &str) -> (r: WebhookEventFields)
    ensures
        ostr(r.header_event_id) == json_text(payload@, "/header/event_id"@),
        ostr(r.top_level_event_id) == json_text(payload@, "/event_id"@),
        ostr(r.header_event_type) == json_text(payload@, "/header/event_type"@),
        ostr(r.event_inner_type) == json_text(payload@, "/event/type"@),
        ostr(r.top_level_type) == json_text(payload@, "/type"@),
        ostr(r.sender_type) == json_text(payload@, "/event/sender/sender_type"@),
        ostr(r.message_type) == json_text(payload@, "/event/message/message_type"@),
        ostr(r.message_id) == json_text(payload@, "/event/message/message_id"@),
{
    WebhookEventFields {
        header_event_id: json_str(payload, "/header/event_id"),
        top_level_event_id: json_str(payload, "/event_id"),
        header_event_type: json_str(payload, "/header/event_type"),
        event_inner_type: json_str(payload, "/event/type"),
        top_level_type: json_str(payload, "/type"),
        sender_type: json_str(payload, "/event/sender/sender_type"),
        message_type: json_str(payload, "/event/message/message_type"),
        message_id: json_str(payload, "/event/message/message_id"),
    }
}

/// The first of two optional strings that is present.
pub open spec fn or_else(a: Option<String>, b: Option<String>) -> Option<Seq<char>> {
    match a {
        Some(x) => Some(x@),
        None => ostr(b),
    }
}

fn first_of(a: &Option<String>, b: &Option<String>) -> (r: Option<String>)
    ensures
        ostr(r) == or_else(*a, *b),
{
    match a {
        Some(x) => Some(x.clone()),
        None => match b {
            Some(y) => Some(y.clone()),
            None => None,
        },
    }
}

impl WebhookEventFields {
    /// The event id: the header's, else the top-level one.
    pub fn event_id(&self) -> (r: Option<String>)
        ensures
            ostr(r) == or_else(self.header_event_id, self.top_level_event_id),
    {
        first_of(&self.header_event_id, &self.top_level_event_id)
    }

    /// The event type: the header's, else `event.type`, else `type`, else
    /// "unknown".
    pub fn effective_event_type(&self) -> (r: String)
        ensures
            r@ == match or_else(self.header_event_type, self.event_inner_type) {
                Some(t) => t,
                None => match self.top_level_type {
                    Some(t) => t@,
                    None => "unknown"@,
                },
            },
    {
        match first_of(&self.header_event_type, &self.event_inner_type) {
            Some(t) => t,
            None => match &self.top_level_type {
                Some(t) => t.clone(),
                None => owned("unknown"),
            },
        }
    }
}

/// Why an event is skipped: the gateway's own messages (sender type "app"
/// or "bot"), senders of another type than "user", and messages that are
/// not text.
pub open spec fn skip_reason_spec(sender_type: Option<Seq<char>>, message_type: Option<Seq<char>>) -> Option<
    Seq<char>,
> {
    if sender_type matches Some(t) && (t == "app"@ || t == "bot"@) {
        Some("sender_type_"@ + sender_type->0)
    } else if sender_type matches Some(t) && t != "user"@ {
        Some("sender_type_unknown"@)
    } else if message_type != Some("text"@) {
        Some("unsupported_message_type"@)
    } else {
        None
    }
}

/// The reason to skip an event, if any.
pub fn webhook_skip_reason(sender_type: Option<&str>, message_type: Option<&str>) -> (r: Option<String>)
    ensures
        ostr(r) == skip_reason_spec(opt_view(sender_type), opt_view(message_type)),
{
    if let Some(t) = sender_type {
        if str_is(t, "app") || str_is(t, "bot") {
            let mut reason = owned("sender_type_");
            push_str(&mut reason, t);
            return Some(reason);
        }
        if !str_is(t, "user") {
            return Some(owned("sender_type_unknown"));
        }
    }
    let is_text = match message_type {
        Some(m) => str_is(m, "text"),
        None => false,
    };
    if !is_text {
        proof {
            reveal_strlit("text");
        }
        return Some(owned("unsupported_message_type"));
    }
    None
}

/// The dedupe key of an event: the channel name, ":" and the event id, else
/// the message id; none when both are missing.
pub open spec fn dedup_key_spec(channel_name: Seq<char>, event_id: Option<Seq<char>>, message_id: Option<
    Seq<char>,
>) -> Option<Seq<char>> {
    match event_id {
        Some(e) => Some(channel_name + ":"@ + e),
        None => match message_id {
            Some(m) => Some(channel_name + ":"@ + m),
            None => None,
        },
    }
}

/// The dedupe key of an event.
pub fn webhook_dedup_key(channel_name: &str, event_id: Option<&str>, message_id: Option<&str>) -> (r:
    Option<String>)
    ensures
        ostr(r) == dedup_key_spec(channel_name@, opt_view(event_id), opt_view(message_id)),
{
    let id = match event_id {
        Some(e) => e,
        None => match message_id {
            Some(m) => m,
            None => return None,
        },
    };
    let mut key = owned(channel_name);
    push_str(&mut key, ":");
    push_str(&mut key, id);
    Some(key)
}

/// The event key of a Feishu job: the dedupe key, else the channel name, the
/// session id (or "unknown") and the text's hash, joined by ":".
pub fn feishu_event_key(
    channel_name: &str,
    event_id: Option<&str>,
    message_id: Option<&str>,
    session_id: Option<&str>,
    text_hash: &str,
) -> (r: String)
    ensures
        dedup_key_spec(channel_name@, opt_view(event_id), opt_view(message_id)) matches Some(k) ==> r@
            == k,
        dedup_key_spec(channel_name@, opt_view(event_id), opt_view(message_id)) is None ==> r@
            == channel_name@ + ":"@ + (match session_id {
            Some(s) => s@,
            None => "unknown"@,
        }) + ":"@ + text_hash@,
{
    match webhook_dedup_key(channel_name, event_id, message_id) {
        Some(k) => k,
        None => {
            let mut key = owned(channel_name);
            push_str(&mut key, ":");
            match session_id {
                Some(s) => push_str(&mut key, s),
                None => push_str(&mut key, "unknown"),
            }
            push_str(&mut key, ":");
            push_str(&mut key, text_hash);
            key
        },
    }
}

// ---------------------------------------------------------------------------
// Feishu session isolation and routing mode
// ---------------------------------------------------------------------------

/// The slash command a Feishu message starts with (after trimming), among
/// "/run", "/tool", "/monitor", "/file", "/workspace" and "/agent", in that
/// order; a message without one is plain chat.
pub open spec fn feishu_slash_spec(text: Seq<char>) -> Option<Seq<char>> {
    let t = trim_seq(text);
    if seq_starts_with(t, "/run"@) {
        Some("/run"@)
    } else if seq_starts_with(t, "/tool"@) {
        Some("/tool"@)
    } else if seq_starts_with(t, "/monitor"@) {
        Some("/monitor"@)
    } else if seq_starts_with(t, "/file"@) {
        Some("/file"@)
    } else if seq_starts_with(t, "/workspace"@) {
        Some("/workspace"@)
    } else if seq_starts_with(t, "/agent"@) {
        Some("/agent"@)
    } else {
        None
    }
}

/// The slash command that puts a Feishu message in tool mode, if any.
pub fn feishu_slash_command(text: &str) -> (r: Option<&'static str>)
    ensures
        opt_view(r) == feishu_slash_spec(text@),
{
    let t = chars_of(str_trim(text));
    if crate::feishu::starts_with_lit(t.as_slice(), "/run") {
        Some("/run")
    } else if crate::feishu::starts_with_lit(t.as_slice(), "/tool") {
        Some("/tool")
    } else if crate::feishu::starts_with_lit(t.as_slice(), "/monitor") {
        Some("/monitor")
    } else if crate::feishu::starts_with_lit(t.as_slice(), "/file") {
        Some("/file")
    } else if crate::feishu::starts_with_lit(t.as_slice(), "/workspace") {
        Some("/workspace")
    } else if crate::feishu::starts_with_lit(t.as_slice(), "/agent") {
        Some("/agent")
    } else {
        None
    }
}

/// The session id of an isolated Feishu message: "feishu:" and the chat id.
pub open spec fn feishu_session(s: Option<String>) -> Option<Seq<char>> {
    match s {
        Some(c) => Some("feishu:"@ + c@),
        None => None,
    }
}

/// Whether a metadata key is one that isolation sets.
pub open spec fn isolation_key(k: Seq<char>) -> bool {
    k == "stateless"@ || k == "feishu_mode"@ || k == "chat_only"@ || k == "slash_command"@
}

/// Isolates a Feishu message from desktop sessions and sets its routing
/// mode: it becomes stateless, its session id gets the "feishu:" prefix,
/// and a slash command puts it in tool mode (recording the command); any
/// other message is chat-only.
pub fn isolate_feishu_inbound(inbound: &mut InboundMessage)
    ensures
        final(inbound).channel == old(inbound).channel,
        final(inbound).user_id == old(inbound).user_id,
        final(inbound).text == old(inbound).text,
        ostr(final(inbound).session_id) == feishu_session(old(inbound).session_id),
        meta_lookup(final(inbound).metadata@, "stateless"@) == Some(MetaValue::Bool(true)),
        feishu_slash_spec(old(inbound).text@) matches Some(c) ==> {
            &&& meta_get(final(inbound).metadata@, "feishu_mode"@) == Some("tool"@)
            &&& meta_lookup(final(inbound).metadata@, "chat_only"@) == Some(MetaValue::Bool(false))
            &&& meta_get(final(inbound).metadata@, "slash_command"@) == Some(c)
        },
        feishu_slash_spec(old(inbound).text@) is None ==> {
            &&& meta_get(final(inbound).metadata@, "feishu_mode"@) == Some("chat_only"@)
            &&& meta_lookup(final(inbound).metadata@, "chat_only"@) == Some(MetaValue::Bool(true))
            &&& meta_lookup(final(inbound).metadata@, "slash_command"@) == meta_lookup(
                old(inbound).metadata@,
                "slash_command"@,
            )
        },
        forall|k: Seq<char>|
            !isolation_key(k) ==> #[trigger] meta_lookup(final(inbound).metadata@, k) == meta_lookup(
                old(inbound).metadata@,
                k,
            ),
{
    let ghost m0 = inbound.metadata@;
    metadata_insert(&mut inbound.metadata, "stateless", MetaValue::Bool(true));
    let session = match &inbound.session_id {
        Some(c) => {
            let mut p = owned("feishu:");
            push_str(&mut p, c.as_str());
            Some(p)
        },
        None => None,
    };
    inbound.session_id = session;
    let ghost m1 = inbound.metadata@;
    match feishu_slash_command(inbound.text.as_str()) {
        Some(command) => {
            metadata_insert(&mut inbound.metadata, "feishu_mode", MetaValue::Str(owned("tool")));
            let ghost m2 = inbound.metadata@;
            metadata_insert(&mut inbound.metadata, "chat_only", MetaValue::Bool(false));
            let ghost m3 = inbound.metadata@;
            metadata_insert(&mut inbound.metadata, "slash_command", MetaValue::Str(owned(command)));
            proof {
                reveal_strlit("stateless");
                reveal_strlit("feishu_mode");
                reveal_strlit("chat_only");
                reveal_strlit("slash_command");
                assert("stateless"@[0] != "chat_only"@[0]);
                assert("stateless"@[0] != "feishu_mode"@[0]);
                assert("feishu_mode"@[0] != "chat_only"@[0]);
                assert("stateless"@[1] != "slash_command"@[1]);
                assert("feishu_mode"@[0] != "slash_command"@[0]);
                assert("stateless"@ != "chat_only"@);
                assert(meta_lookup(inbound.metadata@, "stateless"@) == meta_lookup(m3, "stateless"@));
                assert(meta_lookup(m3, "stateless"@) == meta_lookup(m2, "stateless"@));
                assert(meta_lookup(m2, "stateless"@) == meta_lookup(m1, "stateless"@));
                assert(meta_lookup(inbound.metadata@, "feishu_mode"@) == meta_lookup(m3, "feishu_mode"@));
                assert(meta_lookup(m3, "feishu_mode"@) == meta_lookup(m2, "feishu_mode"@));
                assert(meta_lookup(inbound.metadata@, "chat_only"@) == meta_lookup(m3, "chat_only"@));
                assert forall|k: Seq<char>| !isolation_key(k) implies #[trigger] meta_lookup(
                    inbound.metadata@,
                    k,
                ) == meta_lookup(m0, k) by {
                    assert(meta_lookup(inbound.metadata@, k) == meta_lookup(m3, k));
                    assert(meta_lookup(m3, k) == meta_lookup(m2, k));
                    assert(meta_lookup(m2, k) == meta_lookup(m1, k));
                    assert(meta_lookup(m1, k) == meta_lookup(m0, k));
                }
            }
        },
        None => {
            metadata_insert(&mut inbound.metadata, "feishu_mode", MetaValue::Str(owned("chat_only")));
            let ghost m2 = inbound.metadata@;
            metadata_insert(&mut inbound.metadata, "chat_only", MetaValue::Bool(true));
            proof {
                reveal_strlit("stateless");
                reveal_strlit("feishu_mode");
                reveal_strlit("chat_only");
                reveal_strlit("slash_command");
                assert("stateless"@[0] != "chat_only"@[0]);
                assert("stateless"@[0] != "feishu_mode"@[0]);
                assert("feishu_mode"@[0] != "chat_only"@[0]);
                assert("slash_command"@[0] != "chat_only"@[0]);
                assert("slash_command"@[0] != "feishu_mode"@[0]);
                assert("slash_command"@[1] != "stateless"@[1]);
                assert(meta_lookup(inbound.metadata@, "stateless"@) == meta_lookup(m2, "stateless"@));
                assert(meta_lookup(m2, "stateless"@) == meta_lookup(m1, "stateless"@));
                assert(meta_lookup(inbound.metadata@, "feishu_mode"@) == meta_lookup(m2, "feishu_mode"@));
                assert(meta_lookup(inbound.metadata@, "slash_command"@) == meta_lookup(
                    m2,
                    "slash_command"@,
                ));
                assert(meta_lookup(m2, "slash_command"@) == meta_lookup(m1, "slash_command"@));
                assert(meta_lookup(m1, "slash_command"@) == meta_lookup(m0, "slash_command"@));
                assert forall|k: Seq<char>| !isolation_key(k) implies #[trigger] meta_lookup(
                    inbound.metadata@,
                    k,
                ) == meta_lookup(m0, k) by {
                    assert(meta_lookup(inbound.metadata@, k) == meta_lookup(m2, k));
                    assert(meta_lookup(m2, k) == meta_lookup(m1, k));
                    assert(meta_lookup(m1, k) == meta_lookup(m0, k));
                }
            }
        },
    }
}

// ---------------------------------------------------------------------------
// Reply targets and outbound delivery
// ---------------------------------------------------------------------------

/// A text trimmed, when the trimmed text is not empty.
pub open spec fn trimmed_nonempty(o: Option<Seq<char>>) -> Option<Seq<char>> {
    match o {
        Some(v) => if trim_seq(v).len() > 0 {
            Some(trim_seq(v))
        } else {
            None
        },
        None => None,
    }
}

/// The chat a reply goes to: the first non-blank of the metadata's
/// `conversation_id`, `chat_id`, `message_chat_id` and
/// `message_conversation_id`, else the session id; trimmed.
pub open spec fn reply_chat_id(inb: InboundMessage) -> Option<Seq<char>> {
    let m = inb.metadata@;
    if trimmed_nonempty(meta_get(m, "conversation_id"@)) is Some {
        trimmed_nonempty(meta_get(m, "conversation_id"@))
    } else if trimmed_nonempty(meta_get(m, "chat_id"@)) is Some {
        trimmed_nonempty(meta_get(m, "chat_id"@))
    } else if trimmed_nonempty(meta_get(m, "message_chat_id"@)) is Some {
        trimmed_nonempty(meta_get(m, "message_chat_id"@))
    } else if trimmed_nonempty(meta_get(m, "message_conversation_id"@)) is Some {
        trimmed_nonempty(meta_get(m, "message_conversation_id"@))
    } else {
        trimmed_nonempty(ostr(inb.session_id))
    }
}

/// The message a reply answers: the metadata's `message_id` when that entry
/// exists, else its `message_message_id`; trimmed, when not blank.
pub open spec fn reply_message_id(inb: InboundMessage) -> Option<Seq<char>> {
    let m = inb.metadata@;
    if meta_lookup(m, "message_id"@) is Some {
        trimmed_nonempty(meta_get(m, "message_id"@))
    } else {
        trimmed_nonempty(meta_get(m, "message_message_id"@))
    }
}

/// The user a reply goes to: the sender, else the metadata's non-blank
/// `open_id`, trimmed.
pub open spec fn reply_user_id(inb: InboundMessage) -> Option<Seq<char>> {
    match inb.user_id {
        Some(u) => Some(u@),
        None => trimmed_nonempty(meta_get(inb.metadata@, "open_id"@)),
    }
}

/// Whether `t` is where a reply to `inb` goes.
pub open spec fn reply_target_spec(inb: InboundMessage, t: ReplyTarget) -> bool {
    &&& t.channel == inb.channel
    &&& reply_chat_id(inb) == Some(t.chat_id@)
    &&& ostr(t.message_id) == reply_message_id(inb)
    &&& ostr(t.user_id) == reply_user_id(inb)
}

fn trimmed_text(o: Option<String>) -> (r: Option<String>)
    ensures
        ostr(r) == trimmed_nonempty(ostr(o)),
{
    match o {
        Some(v) => {
            let t = str_trim(v.as_str());
            if t.unicode_len() > 0 {
                Some(owned(t))
            } else {
                None
            }
        },
        None => None,
    }
}

fn meta_trimmed(m: &Vec<(String, MetaValue)>, key: &str) -> (r: Option<String>)
    ensures
        ostr(r) == trimmed_nonempty(meta_get(m@, key@)),
{
    trimmed_text(metadata_text(m, key))
}

/// Where a reply to an inbound message goes; none without a chat.
pub fn reply_target_from_inbound(inbound: &InboundMessage) -> (r: Option<ReplyTarget>)
    ensures
        r is Some <==> reply_chat_id(*inbound) is Some,
        r matches Some(t) ==> reply_target_spec(*inbound, t),
{
    let m = &inbound.metadata;
    let chat_id = match meta_trimmed(m, "conversation_id") {
        Some(c) => c,
        None => match meta_trimmed(m, "chat_id") {
            Some(c) => c,
            None => match meta_trimmed(m, "message_chat_id") {
                Some(c) => c,
                None => match meta_trimmed(m, "message_conversation_id") {
                    Some(c) => c,
                    None => match trimmed_text(inbound.session_id.clone()) {
                        Some(c) => c,
                        None => return None,
                    },
                },
            },
        },
    };
    let message_id = match crate::message::metadata_index(m, "message_id") {
        Some(_) => meta_trimmed(m, "message_id"),
        None => meta_trimmed(m, "message_message_id"),
    };
    let user_id = match &inbound.user_id {
        Some(u) => Some(u.clone()),
        None => meta_trimmed(m, "open_id"),
    };
    Some(ReplyTarget { channel: inbound.channel, chat_id, message_id, user_id })
}

/// Where a channel setting comes from: `extra[key]` trimmed, when it is a
/// non-blank string; else the environment variable named by
/// `extra[key + "_env"]`.
pub open spec fn setting_source_spec(extra: Seq<(String, MetaValue)>, key: Seq<char>, s: SecretSource) -> bool {
    match trimmed_nonempty(meta_get(extra, key)) {
        Some(v) => crate::gateway::is_value(s, v),
        None => match meta_get(extra, key + "_env"@) {
            Some(k) => crate::gateway::is_env(s, k),
            None => s is Missing,
        },
    }
}

/// Where a channel setting comes from.
pub fn config_string_source(entry: &ChannelEntry, key: &str) -> (r: SecretSource)
    ensures
        setting_source_spec(entry.extra@, key@, r),
{
    if let Some(v) = meta_trimmed(&entry.extra, key) {
        return SecretSource::Value(v);
    }
    let mut env_key = owned(key);
    push_str(&mut env_key, "_env");
    match metadata_text(&entry.extra, env_key.as_str()) {
        Some(k) => SecretSource::Env(k),
        None => SecretSource::Missing,
    }
}

/// A setting read from the environment: trimmed, kept when not blank.
pub fn config_env_value(value: Option<String>) -> (r: Option<String>)
    ensures
        ostr(r) == trimmed_nonempty(ostr(value)),
{
    trimmed_text(value)
}

/// The outbound mode of a channel, ASCII lower-cased ("disabled" when unset).
pub open spec fn outbound_mode_spec(mode: Option<String>) -> Seq<char> {
    ascii_lower_seq(
        match mode {
            Some(m) => m@,
            None => "disabled"@,
        },
    )
}

/// The outbound provider of a channel (Feishu and Lark only).
pub open spec fn provider_spec(c: ChannelKind) -> Option<Seq<char>> {
    match c {
        ChannelKind::Feishu => Some("feishu"@),
        ChannelKind::Lark => Some("lark"@),
        _ => None,
    }
}

/// Whether the configuration has an outbound entry for a channel.
pub open spec fn has_outbound_entry(config: Config, c: ChannelKind) -> bool {
    match c {
        ChannelKind::Feishu => config.channels_config.feishu is Some,
        ChannelKind::Lark => config.channels_config.lark is Some,
        _ => false,
    }
}

/// How a platform reply is delivered.
pub enum OutboundPlan {
    /// Nothing is sent and nothing reported.
    Skip,
    /// The reply is blank: reported as skipped.
    EmptyReply { provider: &'static str },
    /// No chat to reply to: reported as failed.
    MissingTarget { provider: &'static str },
    /// Sent through the mock sender.
    Mock { provider: &'static str, target: ReplyTarget },
    /// Sent through the platform's sender with these credentials.
    Real { provider: &'static str, app_id: String, app_secret: String, target: ReplyTarget },
    /// Reported as not configured, with this message.
    NotConfigured { provider: &'static str, message: String },
}

fn provider_of(c: &ChannelKind) -> (r: Option<&'static str>)
    ensures
        opt_view(r) == provider_spec(*c),
{
    match c {
        ChannelKind::Feishu => Some("feishu"),
        ChannelKind::Lark => Some("lark"),
        _ => None,
    }
}

fn outbound_mode_of(mode: Option<String>) -> (r: String)
    ensures
        r@ == outbound_mode_spec(mode),
{
    let raw = match mode {
        Some(m) => m,
        None => owned("disabled"),
    };
    let c = chars_of(raw.as_str());
    string_of(ascii_lower_vec(c.as_slice()).as_slice())
}

/// Plans the delivery of a reply to an inbound message. `outbound_mode`,
/// `app_id` and `app_secret` are the channel's settings, resolved. Without
/// an outbound entry, or with outbound disabled, nothing is sent; a blank
/// reply is reported skipped; without a chat it fails; then the mode picks
/// the mock or the platform sender, which needs both credentials.
pub fn plan_platform_reply(
    config: &Config,
    inbound: &InboundMessage,
    reply: &str,
    outbound_mode: Option<String>,
    app_id: Option<String>,
    app_secret: Option<String>,
) -> (r: OutboundPlan)
    ensures
        ({
            let mode = outbound_mode_spec(outbound_mode);
            let p = provider_spec(inbound.channel);
            if !has_outbound_entry(*config, inbound.channel) || mode == "disabled"@ {
                r is Skip
            } else if trim_seq(reply@).len() == 0 {
                r matches OutboundPlan::EmptyReply { provider } && Some(provider@) == p
            } else if reply_chat_id(*inbound) is None {
                r matches OutboundPlan::MissingTarget { provider } && Some(provider@) == p
            } else if mode == "mock"@ {
                r matches OutboundPlan::Mock { provider, target } && Some(provider@) == p
                    && reply_target_spec(*inbound, target)
            } else if mode == "real"@ {
                match (app_id, app_secret) {
                    (Some(id), Some(secret)) => r matches OutboundPlan::Real {
                        provider,
                        app_id: x,
                        app_secret: y,
                        target,
                    } && Some(provider@) == p && x == id && y == secret && reply_target_spec(
                        *inbound,
                        target,
                    ),
                    (None, _) => r matches OutboundPlan::NotConfigured { provider, message } && Some(
                        provider@,
                    ) == p && message@ == "app_id was missing"@,
                    (Some(_), None) => r matches OutboundPlan::NotConfigured { provider, message }
                        && Some(provider@) == p && message@ == "app_secret was missing"@,
                }
            } else {
                r matches OutboundPlan::NotConfigured { provider, message } && Some(provider@) == p
                    && message@ == "outbound_mode '"@ + mode + "' must be disabled, mock, or real"@
            }
        }),
{
    let has_entry = crate::gateway::channel_entry_for_outbound(config, &inbound.channel).is_some();
    if !has_entry {
        return OutboundPlan::Skip;
    }
    let mode = outbound_mode_of(outbound_mode);
    if str_is(mode.as_str(), "disabled") {
        return OutboundPlan::Skip;
    }
    let provider = match provider_of(&inbound.channel) {
        Some(p) => p,
        None => return OutboundPlan::Skip,
    };
    if crate::text::trimmed_chars(reply).len() == 0 {
        return OutboundPlan::EmptyReply { provider };
    }
    let target = match reply_target_from_inbound(inbound) {
        Some(t) => t,
        None => return OutboundPlan::MissingTarget { provider },
    };
    if str_is(mode.as_str(), "mock") {
        return OutboundPlan::Mock { provider, target };
    }
    if str_is(mode.as_str(), "real") {
        let id = match app_id {
            Some(v) => v,
            None => return OutboundPlan::NotConfigured { provider, message: owned("app_id was missing") },
        };
        let secret = match app_secret {
            Some(v) => v,
            None => return OutboundPlan::NotConfigured {
                provider,
                message: owned("app_secret was missing"),
            },
        };
        return OutboundPlan::Real { provider, app_id: id, app_secret: secret, target };
    }
    let mut message = owned("outbound_mode '");
    push_str(&mut message, mode.as_str());
    push_str(&mut message, "' must be disabled, mock, or real");
    OutboundPlan::NotConfigured { provider, message }
}

/// Plans the delivery of an interactive card: like a reply, but every
/// failure is an error message, and the chat is checked before the mode.
pub fn plan_interactive_card(
    config: &Config,
    inbound: &InboundMessage,
    outbound_mode: Option<String>,
    app_id: Option<String>,
    app_secret: Option<String>,
) -> (r: Result<OutboundPlan, String>)
    ensures
        ({
            let mode = outbound_mode_spec(outbound_mode);
            let p = provider_spec(inbound.channel);
            if !has_outbound_entry(*config, inbound.channel) {
                r matches Err(e) && e@ == "no channel entry for "@ + crate::session::channel_name(
                    inbound.channel,
                )
            } else if reply_chat_id(*inbound) is None {
                r matches Err(e) && e@ == "missing_reply_target"@
            } else if mode == "disabled"@ {
                r matches Err(e) && e@ == "outbound_disabled"@
            } else if mode == "mock"@ {
                r matches Ok(OutboundPlan::Mock { provider, target }) && Some(provider@) == p
                    && reply_target_spec(*inbound, target)
            } else if mode == "real"@ {
                match (app_id, app_secret) {
                    (Some(id), Some(secret)) => r matches Ok(
                        OutboundPlan::Real { provider, app_id: x, app_secret: y, target },
                    ) && Some(provider@) == p && x == id && y == secret && reply_target_spec(
                        *inbound,
                        target,
                    ),
                    (None, _) => r matches Err(e) && e@ == "missing_app_id"@,
                    (Some(_), None) => r matches Err(e) && e@ == "missing_app_secret"@,
                }
            } else {
                r matches Err(e) && e@ == "outbound_mode_unsupported: "@ + mode
            }
        }),
{
    let has_entry = crate::gateway::channel_entry_for_outbound(config, &inbound.channel).is_some();
    if !has_entry {
        let mut e = owned("no channel entry for ");
        push_str(&mut e, crate::session::channel_name_str(&inbound.channel));
        return Err(e);
    }
    let provider = match provider_of(&inbound.channel) {
        Some(p) => p,
        None => return Err(owned("unsupported_channel")),
    };
    let target = match reply_target_from_inbound(inbound) {
        Some(t) => t,
        None => return Err(owned("missing_reply_target")),
    };
    let mode = outbound_mode_of(outbound_mode);
    if str_is(mode.as_str(), "disabled") {
        return Err(owned("outbound_disabled"));
    }
    if str_is(mode.as_str(), "mock") {
        return Ok(OutboundPlan::Mock { provider, target });
    }
    if str_is(mode.as_str(), "real") {
        let id = match app_id {
            Some(v) => v,
            None => return Err(owned("missing_app_id")),
        };
        let secret = match app_secret {
            Some(v) => v,
            None => return Err(owned("missing_app_secret")),
        };
        return Ok(OutboundPlan::Real { provider, app_id: id, app_secret: secret, target });
    }
    let mut e = owned("outbound_mode_unsupported: ");
    push_str(&mut e, mode.as_str());
    Err(e)
}

/// The payload a webhook signature covers: the raw body, or, when the
/// timestamp is included and the request has a non-blank one,
/// "<timestamp>.<body>" with the timestamp trimmed. A missing timestamp is
/// an error when it is required.
pub fn signed_webhook_payload(
    include_timestamp: bool,
    require_timestamp: bool,
    timestamp: Option<&str>,
    raw_body: &str,
) -> (r: Result<String, String>)
    ensures
        !include_timestamp ==> (r matches Ok(p) && p@ == raw_body@),
        include_timestamp ==> match trimmed_nonempty(opt_view(timestamp)) {
            Some(ts) => r matches Ok(p) && p@ == ts + "."@ + raw_body@,
            None => if require_timestamp {
                r matches Err(e) && e@ == "missing timestamp header for webhook signature payload"@
            } else {
                r matches Ok(p) && p@ == raw_body@
            },
        },
{
    if !include_timestamp {
        return Ok(owned(raw_body));
    }
    let ts = match timestamp {
        Some(t) => trimmed_text(Some(owned(t))),
        None => None,
    };
    match ts {
        Some(t) => {
            let mut p = t;
            push_str(&mut p, ".");
            push_str(&mut p, raw_body);
            Ok(p)
        },
        None => if require_timestamp {
            Err(owned("missing timestamp header for webhook signature payload"))
        } else {
            Ok(owned(raw_body))
        },
    }
}

/// Where a webhook event goes once the platform's security checks have
/// passed.
pub enum WebhookRoute {
    /// The channel is disabled (answered 403 before the body is read).
    Disabled,
    /// Filtered out by sender or message type, with the reason.
    Skipped { reason: String },
    /// Seen within the dedupe window.
    Duplicate,
    /// A message the gateway itself sent.
    OwnMessage,
    /// Queued for the Feishu worker.
    Enqueue,
    /// Handled inline.
    Inline,
}

/// The route of an accepted event: queued when it is a Feishu event and the
/// worker runs, else inline.
pub open spec fn accepted_route(r: WebhookRoute, is_feishu: bool, worker_available: bool) -> bool {
    if is_feishu && worker_available {
        r is Enqueue
    } else {
        r is Inline
    }
}

/// The order of the webhook's decisions on an event at time `now` (ms): a
/// disabled channel first; then the sender and message type filters; then
/// the dedupe window on the event id (else the message id); then the
/// messages the gateway sent itself; then the queue for Feishu events when
/// the worker runs, else inline handling. Each cache is consulted only when
/// its step is reached.
pub fn route_webhook_event(
    channel_enabled: bool,
    fields: &WebhookEventFields,
    channel_name: &str,
    dedup: &mut DedupCache,
    sent: &mut OutboundMsgCache,
    now: i64,
    is_feishu: bool,
    worker_available: bool,
) -> (r: WebhookRoute)
    ensures
        final(dedup).ttl() == old(dedup).ttl(),
        final(sent).ttl() == old(sent).ttl(),
        ({
            let skip = skip_reason_spec(ostr(fields.sender_type), ostr(fields.message_type));
            let key = dedup_key_spec(
                channel_name@,
                or_else(fields.header_event_id, fields.top_level_event_id),
                ostr(fields.message_id),
            );
            let step = dedup_step(old(dedup)@, key->0, now, window_ms(old(dedup).ttl()));
            let fresh_sent = fresh(old(sent)@, now, window_ms(old(sent).ttl()));
            if !channel_enabled {
                &&& r is Disabled
                &&& final(dedup)@ == old(dedup)@
                &&& final(sent)@ == old(sent)@
            } else if skip is Some {
                &&& r matches WebhookRoute::Skipped { reason } && reason@ == skip->0
                &&& final(dedup)@ == old(dedup)@
                &&& final(sent)@ == old(sent)@
            } else if key is Some && !step.0 {
                &&& r is Duplicate
                &&& final(dedup)@ == step.1
                &&& final(sent)@ == old(sent)@
            } else {
                &&& final(dedup)@ == (if key is Some {
                    step.1
                } else {
                    old(dedup)@
                })
                &&& if fields.message_id is Some {
                    &&& final(sent)@ == fresh_sent
                    &&& if fresh_sent.contains_key(sent_key(channel_name@, fields.message_id->0@)) {
                        r is OwnMessage
                    } else {
                        accepted_route(r, is_feishu, worker_available)
                    }
                } else {
                    &&& final(sent)@ == old(sent)@
                    &&& accepted_route(r, is_feishu, worker_available)
                }
            }
        }),
{
    if !channel_enabled {
        return WebhookRoute::Disabled;
    }
    let sender_type = match &fields.sender_type {
        Some(t) => Some(t.as_str()),
        None => None,
    };
    let message_type = match &fields.message_type {
        Some(t) => Some(t.as_str()),
        None => None,
    };
    if let Some(reason) = webhook_skip_reason(sender_type, message_type) {
        return WebhookRoute::Skipped { reason };
    }
    let event_id = fields.event_id();
    let ev = match &event_id {
        Some(e) => Some(e.as_str()),
        None => None,
    };
    let mid = match &fields.message_id {
        Some(m) => Some(m.as_str()),
        None => None,
    };
    if let Some(key) = webhook_dedup_key(channel_name, ev, mid) {
        if !dedup.check_and_insert(key.as_str(), now) {
            return WebhookRoute::Duplicate;
        }
    }
    if let Some(m) = &fields.message_id {
        if sent.is_our_message(channel_name, m.as_str(), now) {
            return WebhookRoute::OwnMessage;
        }
    }
    if is_feishu && worker_available {
        WebhookRoute::Enqueue
    } else {
        WebhookRoute::Inline
    }
}

} // verus!
