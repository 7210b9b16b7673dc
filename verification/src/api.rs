//! The gateway's HTTP request and response bodies.
use vstd::prelude::*;
use crate::message::MetaValue;
use crate::session::ChannelKind;
use crate::steps::GatewayChatMessage;

verus! {

/// The health of the gateway.
pub struct GatewayHealth {
    pub ok: bool,
    pub provider: String,
    pub provider_healthy: bool,
    pub memory_healthy: bool,
}

/// A chat request: the message, its session and user, and its metadata.
pub struct GatewayChatRequest {
    pub message: String,
    pub session_id: Option<String>,
    pub user_id: Option<String>,
    pub metadata: Vec<(String, MetaValue)>,
}

/// The reply to a chat request.
pub struct GatewayChatResponse {
    pub reply: String,
}

/// The answer to a configuration update.
pub struct GatewayConfigUpdateResponse {
    pub ok: bool,
}

/// A route request: the channel (if given), the text, the user and session,
/// and the metadata.
pub struct GatewayRouteRequest {
    pub channel: Option<ChannelKind>,
    pub text: String,
    pub user_id: Option<String>,
    pub session_id: Option<String>,
    pub metadata: Vec<(String, MetaValue)>,
}

/// A session's history for the UI.
pub struct GatewaySessionHistoryResponse {
    pub session_id: String,
    pub channel: String,
    pub messages: Vec<GatewayChatMessage>,
    pub updated_at: Option<i64>,
}

/// An emergency-stop request: what to pause and why.
pub struct GatewayEstopPauseRequest {
    pub level: Option<String>,
    pub domain: Option<String>,
    pub tool: Option<String>,
    pub reason: Option<String>,
}

impl Default for GatewayEstopPauseRequest {
    fn default() -> (r: Self)
        ensures
            r.level is None && r.domain is None && r.tool is None && r.reason is None,
    {
        GatewayEstopPauseRequest { level: None, domain: None, tool: None, reason: None }
    }
}

/// An approval decision: who decided and why.
pub struct GatewayApprovalActionRequest {
    pub approved_by: Option<String>,
    pub reason: Option<String>,
}

impl Default for GatewayApprovalActionRequest {
    fn default() -> (r: Self)
        ensures
            r.approved_by is None && r.reason is None,
    {
        GatewayApprovalActionRequest { approved_by: None, reason: None }
    }
}

/// The approvals listing query.
pub struct GatewayApprovalsQuery {
    pub pending_only: Option<bool>,
}

impl Default for GatewayApprovalsQuery {
    fn default() -> (r: Self)
        ensures
            r.pending_only is None,
    {
        GatewayApprovalsQuery { pending_only: None }
    }
}

/// An error answer.
pub struct GatewayError {
    pub message: String,
}

} // verus!
