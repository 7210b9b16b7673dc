use omninova_gateway::api::{
    GatewayApprovalActionRequest, GatewayApprovalsQuery, GatewayError, GatewayEstopPauseRequest,
};

#[test]
fn request_defaults_are_empty() {
    let p = GatewayEstopPauseRequest::default();
    assert!(p.level.is_none() && p.domain.is_none() && p.tool.is_none() && p.reason.is_none());
    let a = GatewayApprovalActionRequest::default();
    assert!(a.approved_by.is_none() && a.reason.is_none());
    assert!(GatewayApprovalsQuery::default().pending_only.is_none());
    let e = GatewayError { message: "boom".to_string() };
    assert_eq!(e.message, "boom");
}
