use bollard::auth::{
    collect_credentials, credentials_from_helper, mask_secret, ConfigFile, DockerConfig,
    DockerCredentials, HelperCredential, RawAuthEntry,
};
use base64::Engine;

#[test]
fn test_credentials_debug_masks_password() {
    let creds = DockerCredentials {
        username: Some("alice".to_string()),
        password: Some("supersecret".to_string()),
        ..Default::default()
    };
    let debug = creds.debug_string();
    assert!(debug.contains("super*****"));
    assert!(!debug.contains("supersecret"));
}

#[test]
fn test_credentials_debug_masks_short_password() {
    let creds = DockerCredentials {
        password: Some("abc".to_string()),
        ..Default::default()
    };
    let debug = creds.debug_string();
    assert!(debug.contains("\"*****\""));
    assert!(!debug.contains("abc"));
}

#[test]
fn test_credentials_debug_masks_auth_and_tokens() {
    let creds = DockerCredentials {
        auth: Some("dXNlcjpwYXNz".to_string()),
        identitytoken: Some("eyJhbGciOiJSUzI1NiJ9.payload".to_string()),
        registrytoken: Some("tok123456".to_string()),
        ..Default::default()
    };
    let debug = creds.debug_string();
    assert!(debug.contains("dXNlc*****"));
    assert!(debug.contains("eyJhb*****"));
    assert!(debug.contains("tok12*****"));
    assert!(!debug.contains("dXNlcjpwYXNz"));
    assert!(!debug.contains("payload"));
    assert!(!debug.contains("tok123456"));
}

#[test]
fn test_credentials_debug_shows_non_sensitive_fields() {
    let creds = DockerCredentials {
        username: Some("alice".to_string()),
        email: Some("alice@example.com".to_string()),
        serveraddress: Some("https://index.docker.io/v1/".to_string()),
        ..Default::default()
    };
    let debug = creds.debug_string();
    assert!(debug.contains("alice"));
    assert!(debug.contains("alice@example.com"));
    assert!(debug.contains("https://index.docker.io/v1/"));
}

#[test]
fn debug_text_lists_every_field_in_order() {
    let creds = DockerCredentials {
        username: Some("bob".to_string()),
        password: Some("hunter22".to_string()),
        ..Default::default()
    };
    assert_eq!(
        creds.debug_string(),
        "DockerCredentials { username: Some(\"bob\"), password: Some(\"hunte*****\"), auth: None, email: None, serveraddress: None, identitytoken: None, registrytoken: None }"
    );
}

#[test]
fn mask_keeps_five_bytes_and_hides_the_rest() {
    assert_eq!(mask_secret("abcdef"), "abcde*****");
    assert_eq!(mask_secret("abcde"), "*****");
    assert_eq!(mask_secret(""), "*****");
    assert_eq!(mask_secret("héllo!"), "héll*****");
}

fn entry(auth: Option<&str>, email: Option<&str>, token: Option<&str>) -> RawAuthEntry {
    RawAuthEntry {
        auth: auth.map(str::to_owned),
        email: email.map(str::to_owned),
        identitytoken: token.map(str::to_owned),
    }
}

#[test]
fn config_decodes_user_and_password_from_auth() {
    // base64 of "alice:password123"
    let config = DockerConfig::from_raw(
        vec![(
            "https://index.docker.io/v1/".to_string(),
            entry(Some("YWxpY2U6cGFzc3dvcmQxMjM="), Some("a@example.com"), None),
        )],
        Some("osxkeychain".to_string()),
        vec![("gcr.io".to_string(), "gcloud".to_string())],
    );
    let creds = config.auths.get("https://index.docker.io/v1/").unwrap();
    assert_eq!(creds.username.as_deref(), Some("alice"));
    assert_eq!(creds.password.as_deref(), Some("password123"));
    assert_eq!(creds.email.as_deref(), Some("a@example.com"));
    assert_eq!(creds.serveraddress.as_deref(), Some("https://index.docker.io/v1/"));
    assert!(creds.auth.is_none());
    assert_eq!(config.creds_store.as_deref(), Some("osxkeychain"));
    assert_eq!(config.cred_helpers.get("gcr.io").map(String::as_str), Some("gcloud"));
}

#[test]
fn config_ignores_auth_that_does_not_decode() {
    // not base64; and base64 of "nocolon"
    let config = DockerConfig::from_raw(
        vec![
            ("a".to_string(), entry(Some("%%%"), None, Some("tok"))),
            ("b".to_string(), entry(Some("bm9jb2xvbg=="), None, None)),
            ("c".to_string(), entry(Some("  dTpw \n"), None, None)),
        ],
        None,
        vec![],
    );
    let a = config.auths.get("a").unwrap();
    assert!(a.username.is_none() && a.password.is_none());
    assert_eq!(a.identitytoken.as_deref(), Some("tok"));
    let b = config.auths.get("b").unwrap();
    assert!(b.username.is_none() && b.password.is_none());
    let c = config.auths.get("c").unwrap();
    assert_eq!(c.username.as_deref(), Some("u"));
    assert_eq!(c.password.as_deref(), Some("p"));
}

#[test]
fn default_config_is_empty() {
    let config = DockerConfig::default();
    assert!(config.auths.is_empty());
    assert!(config.creds_store.is_none());
    assert!(config.cred_helpers.is_empty());
}

#[test]
fn helper_answers_become_credentials_for_the_registry() {
    let c = credentials_from_helper(
        "gcr.io",
        Some(HelperCredential::UsernamePassword("u".to_string(), "p".to_string())),
    )
    .unwrap();
    assert_eq!(c.username.as_deref(), Some("u"));
    assert_eq!(c.password.as_deref(), Some("p"));
    assert_eq!(c.serveraddress.as_deref(), Some("gcr.io"));
    assert!(c.identitytoken.is_none());

    let t = credentials_from_helper("r", Some(HelperCredential::IdentityToken("t".to_string()))).unwrap();
    assert_eq!(t.identitytoken.as_deref(), Some("t"));
    assert!(t.username.is_none());
    assert!(credentials_from_helper("r", None).is_none());
}

#[test]
fn collected_credentials_leave_out_registries_without_answers() {
    let regs = vec!["a".to_string(), "b".to_string(), "c".to_string()];
    let found = vec![
        Some(HelperCredential::IdentityToken("ta".to_string())),
        None,
        Some(HelperCredential::UsernamePassword("u".to_string(), "p".to_string())),
    ];
    let map = collect_credentials(&regs, found);
    assert_eq!(map.len(), 2);
    assert_eq!(map.get("a").unwrap().identitytoken.as_deref(), Some("ta"));
    assert!(map.get("b").is_none());
    assert_eq!(map.get("c").unwrap().serveraddress.as_deref(), Some("c"));
}

#[test]
fn auth_test_load_from_file_parses_auths() {
    let encoded = base64::engine::general_purpose::STANDARD.encode("alice:password123");
    let file = ConfigFile::Parsed(
        vec![("https://index.docker.io/v1/".to_string(), entry(Some(&encoded), None, None))],
        None,
        vec![],
    );
    let config = DockerConfig::load_from_file(file).ok().unwrap();
    let creds = config.auths.get("https://index.docker.io/v1/").unwrap();
    assert_eq!(creds.username.as_deref(), Some("alice"));
    assert_eq!(creds.password.as_deref(), Some("password123"));
}

#[test]
fn auth_test_load_from_file_returns_error_on_invalid_json() {
    let result = DockerConfig::load_from_file(ConfigFile::Unreadable("/tmp/config.json".to_string()));
    assert!(matches!(result, Err(ref e) if e.path == "/tmp/config.json"));
}

#[test]
fn auth_test_load_from_file_returns_error_on_missing_file() {
    let path = "/tmp/bollard_test_nonexistent_config_xyz.json";
    let result = DockerConfig::load_from_file(ConfigFile::Unreadable(path.to_string()));
    assert!(matches!(result, Err(ref e) if e.path == path));
}

#[test]
fn auth_test_load_from_file_empty_config() {
    let config = DockerConfig::load_from_file(ConfigFile::Parsed(vec![], None, vec![])).ok().unwrap();
    assert!(config.auths.is_empty());
    assert!(config.creds_store.is_none());
    assert!(config.cred_helpers.is_empty());
}

#[test]
fn missing_config_file_gives_the_empty_config() {
    let config = DockerConfig::load(ConfigFile::Missing).ok().unwrap();
    assert!(config.auths.is_empty());
    assert!(config.creds_store.is_none());
    assert!(config.cred_helpers.is_empty());
}

#[test]
fn unreadable_config_loads_as_the_empty_config() {
    let config = DockerConfig::load(ConfigFile::Unreadable("/tmp/broken.json".to_string())).ok().unwrap();
    assert!(config.auths.is_empty());
    assert!(config.creds_store.is_none());
    assert!(config.cred_helpers.is_empty());
    let encoded = base64::engine::general_purpose::STANDARD.encode("bob:pw");
    let parsed = DockerConfig::load(ConfigFile::Parsed(
        vec![("r".to_string(), entry(Some(&encoded), None, None))],
        None,
        vec![],
    ))
    .ok()
    .unwrap();
    assert_eq!(parsed.auths.get("r").unwrap().username.as_deref(), Some("bob"));
}

#[test]
fn registries_asked_are_the_auths_then_the_helper_registries() {
    let config = DockerConfig::from_raw(
        vec![
            ("a.io".to_string(), entry(None, None, None)),
            ("b.io".to_string(), entry(None, None, Some("t"))),
        ],
        None,
        vec![("gcr.io".to_string(), "gcloud".to_string())],
    );
    assert_eq!(config.registries(), vec!["a.io".to_string(), "b.io".to_string(), "gcr.io".to_string()]);
    assert!(DockerConfig::default().registries().is_empty());
}
