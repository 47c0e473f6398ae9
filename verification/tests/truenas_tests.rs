use naslock::truenas::{auth_strategy, build_job_query_get, build_job_query_post,
    build_lock_request, build_unlock_request, parse_base_url, Auth, AuthHeader, HttpMethod,
    UnlockOptions, UnlockSecret};

fn base() -> naslock::truenas::BaseUrl {
    parse_base_url("nas.example.com").unwrap()
}

#[test]
fn base_url_defaults_scheme_and_strips_path_query_fragment() {
    assert_eq!(parse_base_url("  nas.example.com  ").unwrap().origin, "https://nas.example.com/");
    assert_eq!(parse_base_url("nas.example.com/").unwrap().origin, "https://nas.example.com/");
    assert_eq!(
        parse_base_url("http://nas.local:8080/ui/page?x=1#frag").unwrap().origin,
        "http://nas.local:8080/"
    );
    assert!(parse_base_url("https://").is_err());
    assert_eq!(parse_base_url("").unwrap_err().message(), "invalid NAS host URL");
}

#[test]
fn unlock_request_with_passphrase_omits_the_key_member() {
    let opts = UnlockOptions { recursive: true, force: false, toggle_attachments: true };
    let r = build_unlock_request(&base(), "tank/data", UnlockSecret::Passphrase("pw"), opts);
    assert!(matches!(r.method, HttpMethod::Post));
    assert_eq!(r.url, "https://nas.example.com/api/v2.0/pool/dataset/unlock");
    let body = r.body.unwrap();
    assert_eq!(
        body,
        "{\"id\":\"tank/data\",\"unlock_options\":{\"recursive\":true,\"force\":false,\
         \"toggle_attachments\":true,\"key_file\":false,\"datasets\":[{\"name\":\"tank/data\",\
         \"passphrase\":\"pw\"}]}}"
    );
    assert!(!body.contains("\"key\""));
}

#[test]
fn unlock_request_with_key_omits_the_passphrase_member() {
    let opts = UnlockOptions { recursive: false, force: true, toggle_attachments: false };
    let r = build_unlock_request(&base(), "tank/x", UnlockSecret::Key("hexkey"), opts);
    let body = r.body.unwrap();
    assert!(body.contains("\"key\":\"hexkey\""));
    assert!(!body.contains("passphrase"));
}

#[test]
fn unlock_body_is_valid_json_with_the_expected_shape() {
    let opts = UnlockOptions { recursive: true, force: false, toggle_attachments: true };
    let r = build_unlock_request(&base(), "t\"x", UnlockSecret::Passphrase("p\\w"), opts);
    let v: serde_json::Value = serde_json::from_str(&r.body.unwrap()).unwrap();
    assert_eq!(v["id"].as_str(), Some("t\"x"));
    let ds = &v["unlock_options"]["datasets"][0];
    assert_eq!(ds["name"].as_str(), Some("t\"x"));
    assert_eq!(ds["passphrase"].as_str(), Some("p\\w"));
    assert!(ds.get("key").is_none());
    assert_eq!(v["unlock_options"]["key_file"].as_bool(), Some(false));
}

#[test]
fn lock_request_carries_force_umount() {
    let r = build_lock_request(&base(), "tank/data", true);
    assert!(matches!(r.method, HttpMethod::Post));
    assert_eq!(r.url, "https://nas.example.com/api/v2.0/pool/dataset/lock");
    assert_eq!(
        r.body.unwrap(),
        "{\"id\":\"tank/data\",\"lock_options\":{\"force_umount\":true}}"
    );
}

#[test]
fn job_queries_take_both_forms() {
    let p = build_job_query_post(&base(), 42);
    assert!(matches!(p.method, HttpMethod::Post));
    assert_eq!(p.url, "https://nas.example.com/api/v2.0/core/get_jobs");
    assert_eq!(p.body.unwrap(), "[[[\"id\",\"=\",42]]]");
    let g = build_job_query_get(&base(), 42);
    assert!(matches!(g.method, HttpMethod::Get));
    assert_eq!(g.url, "https://nas.example.com/api/v2.0/core/get_jobs?id=42");
    assert!(g.body.is_none());
}

#[test]
fn auth_converts_to_exactly_two_strategies() {
    match auth_strategy(Auth::Basic { username: "u", password: "p" }) {
        AuthHeader::Basic { username, password } => {
            assert_eq!(username, "u");
            assert_eq!(password, "p");
        },
        _ => panic!("expected basic"),
    }
    match auth_strategy(Auth::ApiKey { key: "k-123" }) {
        AuthHeader::Bearer { value } => assert_eq!(value, "Bearer k-123"),
        _ => panic!("expected bearer"),
    }
}
