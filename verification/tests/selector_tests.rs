use naslock::entry::{ensure_non_empty, entry_field, require_entry, required_field, SecretEntry,
    SecretStore};
use naslock::errors::Error;
use naslock::selector::{parse_selector, parse_uuid, SelectorMode, Uuid};

fn entry(uuid_hex: &str, title: &str, extra: &[(&str, &str)]) -> SecretEntry {
    let mut fields: Vec<(String, String)> = vec![("Title".to_string(), title.to_string())];
    for (k, v) in extra {
        fields.push((k.to_string(), v.to_string()));
    }
    SecretEntry { uuid: Uuid { hex: uuid_hex.to_string() }, fields }
}

const U1: &str = "0123456789abcdef0123456789abcdef";
const U2: &str = "fedcba9876543210fedcba9876543210";

fn store() -> SecretStore {
    SecretStore {
        entries: vec![
            entry(U1, "Router", &[("UserName", "alice"), ("Password", "pw1")]),
            entry(U2, "NAS admin", &[("UserName", "bob"), ("Password", "pw2")]),
        ],
    }
}

#[test]
fn parse_uuid_hyphenated() {
    let u = parse_uuid("01234567-89ab-cdef-0123-456789abcdef").unwrap();
    assert_eq!(u.hex, U1);
}

#[test]
fn parse_uuid_bare_hex_and_braces() {
    assert_eq!(parse_uuid(U1).unwrap().hex, U1);
    assert_eq!(parse_uuid("{01234567-89ab-cdef-0123-456789abcdef}").unwrap().hex, U1);
    assert_eq!(parse_uuid("  {0123456789ABCDEF0123456789ABCDEF}  ").unwrap().hex, U1);
}

#[test]
fn parse_uuid_rejects_bad_tokens() {
    assert!(parse_uuid("Router").is_none());
    assert!(parse_uuid("0123456789abcdef0123456789abcde").is_none());
    assert!(parse_uuid("0123456789abcdef0123456789abcdeg").is_none());
    assert!(parse_uuid("").is_none());
}

#[test]
fn selector_prefixes_are_case_insensitive() {
    let (mode, tok) = parse_selector("UUID: abc ");
    assert!(matches!(mode, SelectorMode::Uuid));
    assert_eq!(tok, "abc");
    let (mode, tok) = parse_selector("Title:  NAS admin");
    assert!(matches!(mode, SelectorMode::Title));
    assert_eq!(tok, "NAS admin");
    let (mode, tok) = parse_selector("NAS admin");
    assert!(matches!(mode, SelectorMode::Auto));
    assert_eq!(tok, "NAS admin");
}

#[test]
fn uuid_selector_matches_only_by_uuid() {
    let s = SecretStore {
        entries: vec![
            // This entry's title spells the other entry's UUID.
            entry(U1, U2, &[]),
            entry(U2, "second", &[]),
        ],
    };
    let found = s.find_entry(&format!("uuid:{}", U2)).unwrap();
    assert_eq!(found.uuid.hex, U2);
    assert!(s.find_entry("uuid:Router").is_none());
}

#[test]
fn title_selector_is_exact_and_case_sensitive() {
    let s = store();
    let found = s.find_entry("title:NAS admin").unwrap();
    assert_eq!(found.uuid.hex, U2);
    assert!(s.find_entry("title:nas admin").is_none());
    assert!(s.find_entry(&format!("title:{}", U1)).is_none());
}

#[test]
fn auto_selector_tries_uuid_then_title_in_store_order() {
    let s = store();
    assert_eq!(s.find_entry(U2).unwrap().uuid.hex, U2);
    assert_eq!(s.find_entry("Router").unwrap().uuid.hex, U1);
    // The first entry's title spells the second entry's UUID: store order
    // decides, so the first entry wins over the later UUID match.
    let s2 = SecretStore { entries: vec![entry(U1, U2, &[]), entry(U2, "second", &[])] };
    assert_eq!(s2.find_entry(U2).unwrap().uuid.hex, U1);
    assert!(s.find_entry("no such entry").is_none());
}

#[test]
fn field_alias_lookup_is_case_insensitive_and_trimmed() {
    let s = store();
    let e = &s.entries[0];
    assert_eq!(entry_field(e, "username"), Some("alice"));
    assert_eq!(entry_field(e, "  USERNAME "), Some("alice"));
    assert_eq!(entry_field(e, "user-name"), Some("alice"));
    assert_eq!(entry_field(e, "user"), Some("alice"));
    assert_eq!(entry_field(e, "pass"), Some("pw1"));
    assert_eq!(entry_field(e, "Title"), Some("Router"));
    assert_eq!(entry_field(e, "url"), None);
}

#[test]
fn custom_field_lookup_is_case_insensitive_and_trimmed() {
    let e = entry(U1, "t", &[("API Key", "secret1")]);
    assert_eq!(entry_field(&e, "api key"), Some("secret1"));
    assert_eq!(entry_field(&e, "  API KEY  "), Some("secret1"));
    assert_eq!(entry_field(&e, "apikey"), None);
}

#[test]
fn required_field_reports_the_missing_field() {
    let s = store();
    let err = required_field(&s.entries[0], "otp", "auth entry").unwrap_err();
    assert_eq!(err.message(), "missing field 'otp' in KeePass entry auth entry");
}

#[test]
fn require_entry_reports_the_selector() {
    let s = store();
    assert_eq!(require_entry(&s, "Router").unwrap().uuid.hex, U1);
    let err = require_entry(&s, "missing").unwrap_err();
    assert_eq!(err.message(), "KeePass entry not found: missing");
}

#[test]
fn ensure_non_empty_rejects_blank_secrets() {
    assert!(ensure_non_empty("pw", "NAS password").is_ok());
    let err = ensure_non_empty("   ", "NAS password").unwrap_err();
    assert!(matches!(err, Error::EmptySecret { .. }));
    assert_eq!(err.message(), "empty secret for NAS password");
}
