use realmdex::types::{Category, ServerInput};
use realmdex::validation::{extract_host, is_private_host, validate_server_input, ValidationError};

fn valid_input() -> ServerInput {
    ServerInput {
        name: "Test Server".into(),
        host: "https://example.com/players".into(),
        category: Category::Pserver,
        icon_path: None,
        discord_link: None,
        is_wip: false,
        polled: true,
    }
}

#[test]
fn accepts_valid_input() {
    assert!(validate_server_input(&valid_input()).is_ok());
}

#[test]
fn rejects_empty_name() {
    let mut input = valid_input();
    input.name = String::new();
    assert_eq!(
        validate_server_input(&input),
        Err(ValidationError("name is required".into()))
    );
}

#[test]
fn rejects_long_name() {
    let mut input = valid_input();
    input.name = "x".repeat(101);
    assert_eq!(
        validate_server_input(&input),
        Err(ValidationError("name must be 100 chars or fewer".into()))
    );
}

#[test]
fn rejects_javascript_host() {
    let mut input = valid_input();
    input.host = "javascript:alert(1)".into();
    assert_eq!(
        validate_server_input(&input),
        Err(ValidationError("host must start with http:// or https://".into()))
    );
}

#[test]
fn rejects_data_uri_host() {
    let mut input = valid_input();
    input.host = "data:text/html,<script>alert(1)</script>".into();
    assert_eq!(
        validate_server_input(&input),
        Err(ValidationError("host must start with http:// or https://".into()))
    );
}

#[test]
fn rejects_file_host() {
    let mut input = valid_input();
    input.host = "file:///etc/passwd".into();
    assert_eq!(
        validate_server_input(&input),
        Err(ValidationError("host must start with http:// or https://".into()))
    );
}

#[test]
fn accepts_http_host() {
    let mut input = valid_input();
    input.host = "http://203.0.113.1:9001/players".into();
    assert!(validate_server_input(&input).is_ok());
}

#[test]
fn rejects_long_icon_path() {
    let mut input = valid_input();
    input.icon_path = Some("x".repeat(501));
    assert_eq!(
        validate_server_input(&input),
        Err(ValidationError("icon_path must be 500 chars or fewer".into()))
    );
}

#[test]
fn rejects_long_discord_link() {
    let mut input = valid_input();
    input.discord_link = Some("x".repeat(501));
    assert_eq!(
        validate_server_input(&input),
        Err(ValidationError("discord_link must be 500 chars or fewer".into()))
    );
}

#[test]
fn rejects_localhost_host() {
    let mut input = valid_input();
    input.host = "http://localhost:8080/stats".into();
    assert_eq!(
        validate_server_input(&input),
        Err(ValidationError("host must not point to a private/internal address".into()))
    );
}

#[test]
fn rejects_private_ip_host() {
    for addr in &[
        "http://127.0.0.1/stats",
        "http://10.0.0.1/stats",
        "http://172.16.0.1/stats",
        "http://192.168.1.1/stats",
        "http://169.254.169.254/latest/meta-data/",
        "http://0.0.0.0/stats",
    ] {
        let mut input = valid_input();
        input.host = addr.to_string();
        assert!(
            validate_server_input(&input).is_err(),
            "{addr} should be rejected"
        );
    }
}

#[test]
fn accepts_public_ip_host() {
    let mut input = valid_input();
    input.host = "http://198.244.151.113:2052/realmdex/stats".into();
    assert!(validate_server_input(&input).is_ok());
}

#[test]
fn rejects_javascript_discord_link() {
    let mut input = valid_input();
    input.discord_link = Some("javascript:alert(1)".into());
    assert_eq!(
        validate_server_input(&input),
        Err(ValidationError("discord_link must start with http:// or https://".into()))
    );
}

#[test]
fn rejects_javascript_icon_path() {
    let mut input = valid_input();
    input.icon_path = Some("javascript:alert(1)".into());
    assert_eq!(
        validate_server_input(&input),
        Err(ValidationError("icon_path must start with /, http://, or https://".into()))
    );
}

#[test]
fn accepts_local_icon_path() {
    let mut input = valid_input();
    input.icon_path = Some("/icons/server.png".into());
    assert!(validate_server_input(&input).is_ok());
}

#[test]
fn name_length_counts_bytes_not_chars() {
    let mut input = valid_input();
    // 34 three-byte characters: 34 characters but 102 bytes.
    input.name = "\u{20AC}".repeat(34);
    assert_eq!(
        validate_server_input(&input),
        Err(ValidationError("name must be 100 chars or fewer".into()))
    );
    input.name = "\u{20AC}".repeat(33);
    assert!(validate_server_input(&input).is_ok());
}

#[test]
fn name_of_exactly_one_hundred_bytes_is_accepted() {
    let mut input = valid_input();
    input.name = "x".repeat(100);
    assert!(validate_server_input(&input).is_ok());
}

#[test]
fn rules_are_checked_in_order() {
    let mut input = valid_input();
    input.name = String::new();
    input.host = "ftp://x".into();
    assert_eq!(
        validate_server_input(&input),
        Err(ValidationError("name is required".into()))
    );
}

#[test]
fn extract_host_strips_scheme_path_and_port() {
    assert_eq!(extract_host("http://203.0.113.1:9001/players"), Some("203.0.113.1".to_string()));
    assert_eq!(extract_host("https://example.com/a:b"), Some("example.com".to_string()));
    assert_eq!(extract_host("https://[::1]:80/x"), Some("[::1]".to_string()));
    assert_eq!(extract_host("https://[::1]/x"), Some("[::1]".to_string()));
    assert_eq!(extract_host("https://[fe80::1]:443"), Some("[fe80::1]".to_string()));
    assert_eq!(extract_host("http://host:abc/"), Some("host".to_string()));
    assert_eq!(extract_host("http://a:b/"), Some("a".to_string()));
    assert_eq!(extract_host("http://a:b:c/"), Some("a:b".to_string()));
    assert_eq!(extract_host("https://[::1]:x/"), Some("[::1]".to_string()));
    assert_eq!(extract_host("http://host:/"), Some("host".to_string()));
    assert_eq!(extract_host("ftp://example.com"), None);
}

#[test]
fn private_hosts_are_recognised() {
    assert!(is_private_host("LOCALHOST"));
    assert!(is_private_host("172.31.0.1"));
    assert!(!is_private_host("172.32.0.1"));
    assert!(!is_private_host("172.15.0.1"));
    assert!(is_private_host("10.x.0.0.1"));
    assert!(!is_private_host("10.0.0"));
    assert!(!is_private_host("10.0.0.256"));
    assert!(is_private_host("+10.0.0.1"));
    assert!(!is_private_host("example.com"));
}

#[test]
fn ipv6_bracket_host_with_port_is_private() {
    let mut input = valid_input();
    input.host = "http://[::1]:8080/x".into();
    assert_eq!(
        validate_server_input(&input),
        Err(ValidationError("host must not point to a private/internal address".into()))
    );
}

#[test]
fn private_host_with_any_port_text_is_refused() {
    let mut input = valid_input();
    input.host = "http://localhost:x/".into();
    assert_eq!(
        validate_server_input(&input),
        Err(ValidationError("host must not point to a private/internal address".into()))
    );
}

#[test]
fn ipv6_bracket_host_without_port_is_private() {
    let mut input = valid_input();
    input.host = "http://[::1]/stats".into();
    assert_eq!(
        validate_server_input(&input),
        Err(ValidationError("host must not point to a private/internal address".into()))
    );
}

#[test]
fn icon_over_http_and_https_link_are_accepted() {
    let mut input = valid_input();
    input.icon_path = Some("http://cdn.example.com/i.png".into());
    input.discord_link = Some("https://discord.gg/abc".into());
    assert!(validate_server_input(&input).is_ok());
}
