use vulncanix::analyzer::ResponseAnalyzer;
use vulncanix::probe::ScanResult;

fn result_with(url: &str, status: u16, hash: &str) -> ScanResult {
    ScanResult {
        url: url.to_string(),
        status_code: status,
        content_length: 0,
        response_time: 0,
        server_header: None,
        header_loc: None,
        content_type: None,
        content_hash: hash.to_string(),
    }
}

#[test]
fn risk_score_base_table() {
    let a = ResponseAnalyzer::new();
    assert_eq!(a.get_risk_score(&result_with("http://t/x", 200, "h")), 5);
    assert_eq!(a.get_risk_score(&result_with("http://t/x", 299, "h")), 5);
    assert_eq!(a.get_risk_score(&result_with("http://t/x", 401, "h")), 8);
    assert_eq!(a.get_risk_score(&result_with("http://t/x", 403, "h")), 7);
    assert_eq!(a.get_risk_score(&result_with("http://t/x", 500, "h")), 6);
    assert_eq!(a.get_risk_score(&result_with("http://t/x", 599, "h")), 6);
    assert_eq!(a.get_risk_score(&result_with("http://t/x", 404, "h")), 1);
    assert_eq!(a.get_risk_score(&result_with("http://t/x", 400, "h")), 1);
    assert_eq!(a.get_risk_score(&result_with("http://t/x", 0, "h")), 1);
}

#[test]
fn risk_score_admin_config_403_clamps_to_ten() {
    let a = ResponseAnalyzer::new();
    let r = result_with("http://t/admin/config.php", 403, "h");
    // 7 + 3 + 4 = 14, clamped to 10
    assert_eq!(a.get_risk_score(&r), 10);
}

#[test]
fn risk_score_redirect_is_default_low() {
    let a = ResponseAnalyzer::new();
    let r = result_with("http://t/somewhere", 301, "h");
    // 3xx is interesting but has no base-table entry: score stays 1
    assert_eq!(a.get_risk_score(&r), 1);
    assert!(a.is_interesting(&r));
}

#[test]
fn risk_score_bonuses() {
    let a = ResponseAnalyzer::new();
    assert_eq!(a.get_risk_score(&result_with("http://t/login", 200, "h")), 8);
    assert_eq!(a.get_risk_score(&result_with("http://t/app.env", 200, "h")), 9);
    assert_eq!(a.get_risk_score(&result_with("http://t/db.bak", 200, "h")), 7);
    assert_eq!(a.get_risk_score(&result_with("http://t/db.backup", 200, "h")), 7);
    // `.old` and `~` flag a backup indicator but add no score
    assert_eq!(a.get_risk_score(&result_with("http://t/db.old", 200, "h")), 5);
    assert_eq!(a.get_risk_score(&result_with("http://t/db~", 200, "h")), 5);
}

#[test]
fn indicators_order_and_content() {
    let a = ResponseAnalyzer::new();
    let r = result_with("http://t/admin/config.bak", 403, "h");
    let tags = a.get_vuln_indicators(&r);
    assert_eq!(
        tags,
        vec![
            "Access Forbidden".to_string(),
            "Backup File".to_string(),
            "Admin Interface".to_string(),
            "Configuration File".to_string(),
        ]
    );
}

#[test]
fn indicators_status_tags() {
    let a = ResponseAnalyzer::new();
    assert_eq!(
        a.get_vuln_indicators(&result_with("http://t/x", 401, "h")),
        vec!["Authentication Required".to_string()]
    );
    assert_eq!(
        a.get_vuln_indicators(&result_with("http://t/x", 503, "h")),
        vec!["Server Error".to_string()]
    );
    assert!(a.get_vuln_indicators(&result_with("http://t/x", 200, "h")).is_empty());
}

#[test]
fn indicators_tilde_and_env() {
    let a = ResponseAnalyzer::new();
    assert_eq!(
        a.get_vuln_indicators(&result_with("http://t/file~", 200, "h")),
        vec!["Backup File".to_string()]
    );
    assert_eq!(
        a.get_vuln_indicators(&result_with("http://t/.env", 200, "h")),
        vec!["Configuration File".to_string()]
    );
}

#[test]
fn interesting_statuses() {
    let a = ResponseAnalyzer::new();
    for status in [200, 204, 299, 300, 302, 399, 401, 403, 500, 503, 599] {
        assert!(a.is_interesting(&result_with("http://t/x", status, "h")), "{status}");
    }
    for status in [0, 100, 199, 400, 402, 404, 410, 499, 600] {
        assert!(!a.is_interesting(&result_with("http://t/x", status, "h")), "{status}");
    }
}

#[test]
fn soft_404_suppression_overrides_status() {
    let mut a = ResponseAnalyzer::new();
    a.store_404_hashes("deadbeef".to_string());
    // a fabricated 200 response whose body hash matches the baseline
    let r = result_with("http://t/admin", 200, "deadbeef");
    assert!(!a.is_interesting(&r));
    // same status and URL with a fresh hash stays interesting
    assert!(a.is_interesting(&result_with("http://t/admin", 200, "other")));
}

#[test]
fn analysis_is_idempotent() {
    let mut a = ResponseAnalyzer::new();
    a.store_404_hashes("deadbeef".to_string());
    let r = result_with("http://t/admin/config.bak", 403, "h");
    assert_eq!(a.is_interesting(&r), a.is_interesting(&r));
    assert_eq!(a.get_vuln_indicators(&r), a.get_vuln_indicators(&r));
    assert_eq!(a.get_risk_score(&r), a.get_risk_score(&r));
}

#[test]
fn avg_response_time_roundtrip() {
    let mut a = ResponseAnalyzer::new();
    assert_eq!(a.get_avg_response_time(), 0);
    a.set_avg_response_time(1234);
    assert_eq!(a.get_avg_response_time(), 1234);
}
