use dystopia::generator::{split_words, Generator};
use dystopia::nats::{parse_port, ConnectionConfig, NatsError};
use dystopia::service::{snake_case_to_pascal_case, DysDirectorService, HttpMethod, LogLevel, LoggerOptions};

#[test]
fn default_settings_give_default_connection() {
    let config = ConnectionConfig::from_settings(None, None, None).unwrap();
    assert_eq!(config.get_token(), Some("replaceme".to_string()));
    assert_eq!(config.into_connection_string(), "172.18.0.1:4222");
}

#[test]
fn settings_override_defaults() {
    let config = ConnectionConfig::from_settings(
        Some("nats.local".to_string()),
        Some("+8080".to_string()),
        Some("SECRET-REDACTED".to_string()),
    )
    .unwrap();
    assert_eq!(config.get_token(), Some("SECRET-REDACTED".to_string()));
    assert_eq!(config.into_connection_string(), "nats.local:8080");
}

#[test]
fn unreadable_port_gives_no_configuration() {
    assert!(ConnectionConfig::from_settings(None, Some("42x".to_string()), None).is_none());
    assert!(ConnectionConfig::from_settings(None, Some("65536".to_string()), None).is_none());
}

#[test]
fn builders_replace_settings() {
    let config = ConnectionConfig::from_settings(None, None, None)
        .unwrap()
        .host("example".to_string())
        .port(1)
        .token("t".to_string());
    assert_eq!(config.get_token(), Some("t".to_string()));
    assert_eq!(config.into_connection_string(), "example:1");
}

#[test]
fn ports_parse_like_u16() {
    for text in ["0", "4222", "65535", "+7", "0004222", "", "+", "-1", "65536", "99999999999", " 1", "1 "] {
        assert_eq!(parse_port(text), text.parse::<u16>().ok(), "{text}");
    }
}

#[test]
fn nats_errors_display_their_variant() {
    assert_eq!(NatsError::MalformedRequest.to_string(), "MalformedRequest");
    assert_eq!(NatsError::PublishTimeout.to_string(), "PublishTimeout");
    assert_eq!(NatsError::InternalSerializationError.to_string(), "InternalSerializationError");
}

#[test]
fn http_methods_by_name() {
    assert_eq!(HttpMethod::from_name("GET"), Some(HttpMethod::Get));
    assert_eq!(HttpMethod::from_name("post"), Some(HttpMethod::Post));
    assert_eq!(HttpMethod::from_name("Put"), Some(HttpMethod::Put));
    assert_eq!(HttpMethod::from_name("pAtCh"), Some(HttpMethod::Patch));
    assert_eq!(HttpMethod::from_name("DELETE"), Some(HttpMethod::Delete));
    assert_eq!(HttpMethod::from_name("head"), None);
    assert_eq!(HttpMethod::from_name("gets"), None);
    assert_eq!(HttpMethod::Delete.name(), "Delete");
    assert_eq!(HttpMethod::Patch.lowercase_name(), "patch");
}

#[test]
fn snake_case_names_become_pascal_case() {
    assert_eq!(snake_case_to_pascal_case("get_user_name".to_string()), "GetUserName");
    assert_eq!(snake_case_to_pascal_case("create".to_string()), "Create");
    assert_eq!(snake_case_to_pascal_case("two words".to_string()), "TwoWords");
    assert_eq!(snake_case_to_pascal_case("a_1b_cD".to_string()), "A1bCD");
}

#[test]
fn logger_defaults() {
    let options = LoggerOptions::default();
    assert_eq!(options.application_name, "");
    assert_eq!(options.log_level, LogLevel::Info);
    let _service = DysDirectorService::default();
}

#[test]
fn words_split_on_white_space() {
    let words = split_words("  Ada\tGrace\n\nAlan  ");
    assert_eq!(words, vec!["Ada".to_string(), "Grace".to_string(), "Alan".to_string()]);
    assert!(split_words("").is_empty());
    assert!(split_words(" \u{3000} ").is_empty());
    let text = "a\u{a0}b c\u{2028}d";
    let expected: Vec<String> = text.split_whitespace().map(|s| s.to_string()).collect();
    assert_eq!(split_words(text), expected);
}

#[test]
fn generator_reads_name_lists() {
    let generator = Generator::new("Ada Grace", "Lovelace\nHopper");
    assert_eq!(generator.given_names(), vec!["Ada".to_string(), "Grace".to_string()]);
    assert_eq!(generator.surnames(), vec!["Lovelace".to_string(), "Hopper".to_string()]);
    let teams = generator.team_names();
    assert_eq!(teams.len(), 12);
    assert_eq!(teams[0], "Alpha");
    assert_eq!(teams[11], "Mu");
}
