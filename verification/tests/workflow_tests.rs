use naslock::config::{default_auth_method, default_password_field, default_recursive,
    default_toggle_attachments, default_unlock_mode, default_username_field, expand_path,
    resolve_config_path, AuthMethod, Config, KeepassConfig, NasConfig, UnlockMode, VolumeConfig};
use naslock::entry::SecretEntry;
use naslock::errors::Error;
use naslock::responses::UnlockResult;
use naslock::selector::Uuid;
use naslock::workflow::{make_unlock_secret, resolve_credential, resolve_unlock_secret,
    unlock_outcome, Credential, UnlockOutcome};
use naslock::truenas::{Auth, UnlockSecret};

fn auth_entry() -> SecretEntry {
    SecretEntry {
        uuid: Uuid { hex: "0123456789abcdef0123456789abcdef".to_string() },
        fields: vec![
            ("Title".to_string(), "NAS admin".to_string()),
            ("UserName".to_string(), "root".to_string()),
            ("Password".to_string(), "hunter2".to_string()),
        ],
    }
}

#[test]
fn basic_credential_resolves_both_fields() {
    let c = resolve_credential(&auth_entry(), AuthMethod::Basic, "UserName", "Password", "nas")
        .unwrap();
    match &c {
        Credential::Basic { username, password } => {
            assert_eq!(username, "root");
            assert_eq!(password, "hunter2");
        },
        _ => panic!("expected basic"),
    }
    match c.as_auth() {
        Auth::Basic { username, password } => {
            assert_eq!(username, "root");
            assert_eq!(password, "hunter2");
        },
        _ => panic!("expected basic auth"),
    }
}

#[test]
fn api_key_credential_reads_the_password_field() {
    let c = resolve_credential(&auth_entry(), AuthMethod::ApiKey, "UserName", "Password", "nas")
        .unwrap();
    match c {
        Credential::ApiKey { key } => assert_eq!(key, "hunter2"),
        _ => panic!("expected api key"),
    }
}

#[test]
fn missing_and_empty_credential_fields_are_rejected() {
    let err = resolve_credential(&auth_entry(), AuthMethod::Basic, "Login", "Password", "nas")
        .unwrap_err();
    assert_eq!(err.message(), "missing field 'Login' in KeePass entry nas");
    let mut e = auth_entry();
    e.fields[2].1 = "   ".to_string();
    let err = resolve_credential(&e, AuthMethod::Basic, "UserName", "Password", "nas")
        .unwrap_err();
    assert_eq!(err.message(), "empty secret for NAS password");
    let err = resolve_credential(&e, AuthMethod::ApiKey, "UserName", "Password", "nas")
        .unwrap_err();
    assert_eq!(err.message(), "empty secret for API key");
}

#[test]
fn unlock_secret_is_resolved_and_checked() {
    let v = resolve_unlock_secret(&auth_entry(), "Password", "vol entry").unwrap();
    assert_eq!(v, "hunter2");
    let err = resolve_unlock_secret(&auth_entry(), "Passphrase", "vol entry").unwrap_err();
    assert!(matches!(err, Error::MissingField { .. }));
    assert!(matches!(
        make_unlock_secret(UnlockMode::Passphrase, "s"),
        UnlockSecret::Passphrase("s")
    ));
    assert!(matches!(make_unlock_secret(UnlockMode::Key, "s"), UnlockSecret::Key("s")));
}

fn result(
    job_id: Option<i64>,
    unlocked: &[&str],
    failed: &[(&str, &str)],
    message: Option<&str>,
) -> UnlockResult {
    UnlockResult {
        job_id,
        unlocked: unlocked.iter().map(|s| s.to_string()).collect(),
        failed: failed.iter().map(|(a, b)| (a.to_string(), b.to_string())).collect(),
        message: message.map(|s| s.to_string()),
    }
}

#[test]
fn reported_failures_defeat_the_operation_even_with_partial_success() {
    let r = result(Some(4), &["tank/a"], &[("tank/b", "wrong key")], Some("m"));
    match unlock_outcome(r) {
        UnlockOutcome::Failed { failures } => {
            assert_eq!(failures, vec![("tank/b".to_string(), "wrong key".to_string())]);
        },
        _ => panic!("expected failure"),
    }
}

#[test]
fn outcome_priority_job_then_names_then_message_then_accepted() {
    assert!(matches!(
        unlock_outcome(result(Some(4), &["tank/a"], &[], Some("m"))),
        UnlockOutcome::Track { job_id: 4 }
    ));
    match unlock_outcome(result(None, &["tank/a"], &[], Some("m"))) {
        UnlockOutcome::Unlocked { names } => assert_eq!(names, vec!["tank/a".to_string()]),
        _ => panic!("expected names"),
    }
    match unlock_outcome(result(None, &[], &[], Some("m"))) {
        UnlockOutcome::Info { message } => assert_eq!(message, "m"),
        _ => panic!("expected message"),
    }
    assert!(matches!(unlock_outcome(result(None, &[], &[], None)), UnlockOutcome::Accepted));
}

#[test]
fn defaults_match_the_file_format() {
    assert!(matches!(default_auth_method(), AuthMethod::Basic));
    assert!(matches!(default_unlock_mode(), UnlockMode::Passphrase));
    assert_eq!(default_username_field(), "UserName");
    assert_eq!(default_password_field(), "Password");
    assert!(default_recursive());
    assert!(default_toggle_attachments());
}

#[test]
fn path_expansion_handles_tilde_and_base_dir() {
    assert_eq!(expand_path("~/kdbx/store.kdbx", Some("/home/u"), None), "/home/u/kdbx/store.kdbx");
    assert_eq!(expand_path("~", Some("/home/u"), None), "/home/u");
    assert_eq!(expand_path("~/x", None, None), "~/x");
    assert_eq!(expand_path("store.kdbx", Some("/home/u"), Some("/etc/naslock")),
        "/etc/naslock/store.kdbx");
    assert_eq!(expand_path("/abs/store.kdbx", Some("/home/u"), Some("/etc/naslock")),
        "/abs/store.kdbx");
}

#[test]
fn config_path_prefers_the_explicit_argument() {
    assert_eq!(
        resolve_config_path(Some("~/cfg.toml"), Some("/home/u"), Some("/home/u/.config")),
        Some("/home/u/cfg.toml".to_string())
    );
    assert_eq!(
        resolve_config_path(None, Some("/home/u"), Some("/home/u/.config")),
        Some("/home/u/.config/naslock/config.toml".to_string())
    );
    assert_eq!(resolve_config_path(None, Some("/home/u"), None), None);
}

#[test]
fn config_records_are_found_by_exact_name() {
    let cfg = Config {
        keepass: KeepassConfig { path: "/s.kdbx".to_string(), key_file: None },
        nas: vec![(
            "home".to_string(),
            NasConfig {
                host: "nas.local".to_string(),
                auth_entry: "NAS admin".to_string(),
                auth_method: AuthMethod::Basic,
                username_field: "UserName".to_string(),
                password_field: "Password".to_string(),
                skip_tls_verify: false,
            },
        )],
        volume: vec![(
            "media".to_string(),
            VolumeConfig {
                nas: "home".to_string(),
                dataset: "tank/media".to_string(),
                unlock_entry: "tank key".to_string(),
                unlock_field: "Password".to_string(),
                unlock_mode: UnlockMode::Passphrase,
                recursive: true,
                force: false,
                lock_force_umount: false,
                toggle_attachments: true,
            },
        )],
    };
    assert_eq!(cfg.get_nas("home").unwrap().host, "nas.local");
    assert!(cfg.get_nas("Home").is_none());
    assert_eq!(cfg.get_volume("media").unwrap().dataset, "tank/media");
    assert!(cfg.get_volume("other").is_none());
}
