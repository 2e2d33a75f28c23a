use monitor_host::StrMap;
use monitor_host::gateway::{proxy_target, clamp_status, filter_headers, proxy_plan, ProxyPlan,
    MAX_PROXY_BODY};

#[test]
fn target_joins_with_one_slash() {
    assert_eq!(proxy_target("http://127.0.0.1:5501/", "x/y?q=1"), "http://127.0.0.1:5501/x/y?q=1");
    assert_eq!(proxy_target("http://127.0.0.1:5501", "x/y?q=1"), "http://127.0.0.1:5501/x/y?q=1");
    assert_eq!(proxy_target("http://h:1//", "//a"), "http://h:1/a");
}

#[test]
fn target_with_empty_rest_has_no_trailing_segment() {
    assert_eq!(proxy_target("http://127.0.0.1:5501/app/", ""), "http://127.0.0.1:5501/app");
}

#[test]
fn status_is_kept_in_range_and_clamped_outside() {
    assert_eq!(clamp_status(200), 200);
    assert_eq!(clamp_status(100), 100);
    assert_eq!(clamp_status(999), 999);
    assert_eq!(clamp_status(99), 502);
    assert_eq!(clamp_status(1000), 502);
    assert_eq!(clamp_status(0), 502);
}

#[test]
fn host_header_is_dropped_case_insensitively() {
    let headers = vec![
        ("Host".to_string(), "a".to_string()),
        ("Content-Type".to_string(), "text/plain".to_string()),
        ("hOsT".to_string(), "b".to_string()),
        ("X-Hosting".to_string(), "keep".to_string()),
    ];
    let kept = filter_headers(&headers);
    assert_eq!(kept.len(), 2);
    assert_eq!(kept[0].0, "Content-Type");
    assert_eq!(kept[1].0, "X-Hosting");
}

#[test]
fn forward_keeps_method_and_filters_headers() {
    let mut registry = StrMap::new();
    registry.insert("p".to_string(), "http://127.0.0.1:5501".to_string());
    let headers = vec![
        ("Host".to_string(), "gw".to_string()),
        ("Accept".to_string(), "*/*".to_string()),
    ];
    match proxy_plan(&registry, "p", "x/y?q=1", "POST".to_string(), &headers) {
        ProxyPlan::Forward { target, method, headers } => {
            assert_eq!(target, "http://127.0.0.1:5501/x/y?q=1");
            assert_eq!(method, "POST");
            assert_eq!(headers.len(), 1);
            assert_eq!(headers[0].0, "Accept");
        }
        ProxyPlan::NotFound { .. } => panic!("expected a forward"),
    }
}

#[test]
fn unknown_plugin_is_404_with_its_name() {
    let registry = StrMap::new();
    match proxy_plan(&registry, "foo", "bar", "GET".to_string(), &vec![]) {
        ProxyPlan::NotFound { body } => {
            assert!(body.contains("foo"));
        }
        ProxyPlan::Forward { .. } => panic!("expected a refusal"),
    }
}

#[test]
fn body_cap_is_one_mebibyte() {
    assert_eq!(MAX_PROXY_BODY, 1024 * 1024);
}
