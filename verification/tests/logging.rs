use omninova_gateway::logging::{
    client_ip_for_log, log_count_query, log_rows_query, logs_to_csv, ApiRequestLog, LogError,
    RequestLogFilter, SqlParam,
};

#[test]
fn test_request_log_creation() {
    let log = ApiRequestLog::new("GET".to_string(), "/api/agents".to_string(), 200, 150);

    assert_eq!(log.method, "GET");
    assert_eq!(log.endpoint, "/api/agents");
    assert_eq!(log.status_code, 200);
    assert_eq!(log.response_time_ms, 150);
    assert!(log.is_success());
    assert!(!log.is_client_error());
    assert!(!log.is_server_error());
    assert_eq!(log.log_level(), "INFO");
}

#[test]
fn test_request_log_status_classification() {
    let success_log = ApiRequestLog::new("GET".into(), "/test".into(), 200, 10);
    assert!(success_log.is_success());
    assert_eq!(success_log.log_level(), "INFO");

    let client_error_log = ApiRequestLog::new("GET".into(), "/test".into(), 404, 5);
    assert!(client_error_log.is_client_error());
    assert_eq!(client_error_log.log_level(), "WARN");

    let server_error_log = ApiRequestLog::new("GET".into(), "/test".into(), 500, 100);
    assert!(server_error_log.is_server_error());
    assert_eq!(server_error_log.log_level(), "ERROR");
}

#[test]
fn redirects_and_informational_codes_log_as_errors() {
    let log = ApiRequestLog::new_at("GET".into(), "/x".into(), 302, 1, 1_000);
    assert!(!log.is_success() && !log.is_client_error() && !log.is_server_error());
    assert_eq!(log.log_level(), "ERROR");
    let beyond = ApiRequestLog::new_at("GET".into(), "/x".into(), 600, 1, 1_000);
    assert!(!beyond.is_server_error());
    assert_eq!(beyond.log_level(), "ERROR");
    assert_eq!(log.timestamp, 1_000);
    assert_eq!(log.id, 0);
}

#[test]
fn test_filter_time_range() {
    let filter = RequestLogFilter::time_range(100, 3700);
    assert_eq!(filter.start_time, Some(100));
    assert_eq!(filter.end_time, Some(3700));
    assert!(filter.endpoint.is_none());
}

#[test]
fn test_filter_last_hours() {
    let filter = RequestLogFilter::last_hours(24).unwrap();
    let duration = filter.end_time.unwrap() - filter.start_time.unwrap();
    assert_eq!(duration, 24 * 3600);
    let f = RequestLogFilter::last_hours_at(2, 10_000);
    assert_eq!(f.start_time, Some(10_000 - 7200));
    assert_eq!(f.end_time, Some(10_000));
    assert!(RequestLogFilter::last_hours(i64::MAX).is_none());
}

#[test]
fn test_filter_last_days() {
    let filter = RequestLogFilter::last_days(7).unwrap();
    let duration = filter.end_time.unwrap() - filter.start_time.unwrap();
    assert_eq!(duration, 7 * 24 * 3600);
    assert!(RequestLogFilter::last_days(i64::MIN).is_none());
}

#[test]
fn test_filter_with_endpoint() {
    let filter = RequestLogFilter::default().with_endpoint("/api/agents");
    assert_eq!(filter.endpoint, Some("/api/agents".to_string()));
}

#[test]
fn test_filter_with_method() {
    let filter = RequestLogFilter::default().with_method("POST");
    assert_eq!(filter.method, Some("POST".to_string()));
}

#[test]
fn test_filter_with_status_code() {
    let filter = RequestLogFilter::default().with_status_code(404);
    assert_eq!(filter.status_code, Some(404));
}

fn ints(params: &[SqlParam]) -> Vec<String> {
    params
        .iter()
        .map(|p| match p {
            SqlParam::Int(n) => format!("i{n}"),
            SqlParam::Text(t) => format!("t{t}"),
        })
        .collect()
}

#[test]
fn row_query_lists_conditions_in_order() {
    let mut f = RequestLogFilter::time_range(10, 20).with_endpoint("agents").with_method("post");
    f.min_response_time = Some(5);
    let q = log_rows_query(&f, 50, 100);
    assert!(q.sql.ends_with(
        "FROM api_request_logs WHERE 1=1 AND timestamp >= ? AND timestamp <= ? AND endpoint LIKE ? AND method = ? AND response_time_ms >= ? ORDER BY timestamp DESC LIMIT ? OFFSET ?"
    ));
    assert_eq!(ints(&q.params), vec!["i10", "i20", "t%agents%", "tPOST", "i5", "i50", "i100"]);
}

#[test]
fn count_query_applies_the_same_conditions_as_the_rows_query() {
    let mut f = RequestLogFilter::default().with_status_code(404);
    f.api_key_id = Some(7);
    f.max_response_time = Some(9);
    let q = log_count_query(&f);
    assert_eq!(
        q.sql,
        "SELECT COUNT(*) FROM api_request_logs WHERE 1=1 AND status_code = ? AND api_key_id = ? AND response_time_ms <= ?"
    );
    assert_eq!(ints(&q.params), vec!["i404", "i7", "i9"]);
}

#[test]
fn csv_export_writes_one_line_per_log() {
    let mut a = ApiRequestLog::new_at("GET".into(), "/a".into(), 200, 3, 1_700_000_000);
    a.id = 1;
    a.api_key_id = Some(9);
    a.ip_address = Some("1.2.3.4".into());
    let b = ApiRequestLog::new_at("POST".into(), "/b".into(), 500, 40, 1_700_000_001);
    let csv = logs_to_csv(&[a, b]);
    assert_eq!(
        csv,
        "id,timestamp,method,endpoint,status_code,response_time_ms,api_key_id,ip_address,user_agent\n1,1700000000,GET,/a,200,3,9,1.2.3.4,\n0,1700000001,POST,/b,500,40,,,\n"
    );
}

#[test]
fn client_ip_prefers_forwarded_chain_head() {
    assert_eq!(client_ip_for_log(Some(" 10.0.0.1 , 10.0.0.2"), Some("9.9.9.9")), Some("10.0.0.1".to_string()));
    assert_eq!(client_ip_for_log(None, Some("9.9.9.9")), Some("9.9.9.9".to_string()));
    assert_eq!(client_ip_for_log(None, None), None);
}

#[test]
fn log_errors_map_to_status_and_message() {
    assert_eq!(LogError::InvalidFilter("x".into()).status_and_message(), (400, "Invalid filter"));
    assert_eq!(LogError::DatabaseError("x".into()).status_and_message(), (500, "Database error"));
    assert_eq!(LogError::AsyncError("boom".into()).describe(), "Async error: boom");
}
