use best_bot::config::{
    config_template, join_path, path_config_dir, path_config_file, Config, LevelFilter, Log,
    SecretStore, Slack, CONFIG_FOLDER,
};

fn tokens() -> Slack {
    Slack {
        api_token: "xoxb-bot".to_string(),
        admin_api_token: "xoxp-admin".to_string(),
        incoming_webhooks_token: None,
        outgoing_webhooks_token: Some("hook-out".to_string()),
    }
}

#[test]
fn join_puts_a_separator_between_the_parts() {
    assert_eq!(join_path("/home/bot", ".config/BEST-Bot"), "/home/bot/.config/BEST-Bot");
    assert_eq!(join_path("/home/bot", "libs"), "/home/bot/libs");
}

#[test]
fn join_adds_no_second_separator() {
    assert_eq!(join_path("/home/bot/", "libs"), "/home/bot/libs");
    assert_eq!(join_path("/", "etc"), "/etc");
}

#[test]
fn join_with_an_absolute_path_replaces_the_base() {
    assert_eq!(join_path("/home/bot", "/opt/plugins"), "/opt/plugins");
    assert_eq!(join_path("", "/opt/plugins"), "/opt/plugins");
}

#[test]
fn join_with_an_empty_base_adds_no_separator() {
    assert_eq!(join_path("", "libs"), "libs");
}

#[test]
fn join_with_an_empty_path_ends_in_a_separator() {
    assert_eq!(join_path("/home/bot", ""), "/home/bot/");
    assert_eq!(join_path("/home/bot/", ""), "/home/bot/");
    assert_eq!(join_path("", ""), "");
}

#[test]
fn join_agrees_with_the_standard_library() {
    let cases = [
        ("/home/bot", "libs"),
        ("/home/bot/", "libs"),
        ("/home/bot", "/abs"),
        ("", "rel"),
        ("/home/bot", ""),
        ("rel", "a/b"),
        ("/home/b\u{f6}t", "pl\u{fc}gins"),
    ];
    for (base, path) in cases {
        let expected = std::path::Path::new(base).join(path);
        assert_eq!(join_path(base, path), expected.to_str().unwrap());
    }
}

#[test]
fn level_names_are_read_in_any_letter_case() {
    assert_eq!(LevelFilter::from_name("off"), LevelFilter::Off);
    assert_eq!(LevelFilter::from_name("Error"), LevelFilter::Error);
    assert_eq!(LevelFilter::from_name("WARN"), LevelFilter::Warn);
    assert_eq!(LevelFilter::from_name("info"), LevelFilter::Info);
    assert_eq!(LevelFilter::from_name("debug"), LevelFilter::Debug);
    assert_eq!(LevelFilter::from_name("tRaCe"), LevelFilter::Trace);
}

#[test]
fn an_unknown_level_name_means_info() {
    assert_eq!(LevelFilter::from_name("verbose"), LevelFilter::Info);
    assert_eq!(LevelFilter::from_name(""), LevelFilter::Info);
    assert_eq!(LevelFilter::from_name(" debug"), LevelFilter::Info);
}

#[test]
fn upper_case_names_are_matched_exactly() {
    assert_eq!(LevelFilter::from_upper("DEBUG"), LevelFilter::Debug);
    assert_eq!(LevelFilter::from_upper("debug"), LevelFilter::Info);
    assert_eq!(LevelFilter::from_upper("OFF"), LevelFilter::Off);
    assert_eq!(LevelFilter::from_upper("TRACE"), LevelFilter::Trace);
    assert_eq!(LevelFilter::from_upper("ERROR"), LevelFilter::Error);
    assert_eq!(LevelFilter::from_upper("WARN"), LevelFilter::Warn);
    assert_eq!(LevelFilter::from_upper("INFO"), LevelFilter::Info);
}

#[test]
fn log_level_comes_from_the_options() {
    let log = Log::new(Some("warn".to_string()), None, None, None);
    assert_eq!(log.level(), LevelFilter::Warn);
    let log = Log::new(Some("trace".to_string()), None, None, None);
    assert_eq!(log.level(), LevelFilter::Trace);
}

#[test]
fn log_level_without_a_name_is_info() {
    let log = Log::new(None, None, None, None);
    assert_eq!(log.level(), LevelFilter::Info);
}

#[test]
fn log_file_is_off_unless_switched_on() {
    assert!(!Log::new(None, None, None, None).to_file());
    assert!(!Log::new(None, Some(false), None, None).to_file());
    assert!(Log::new(None, Some(true), None, None).to_file());
}

#[test]
fn log_terminal_is_on_unless_switched_off() {
    assert!(Log::new(None, None, None, None).to_terminal());
    assert!(Log::new(None, None, Some(true), None).to_terminal());
    assert!(!Log::new(None, None, Some(false), None).to_terminal());
}

#[test]
fn log_path_defaults_to_the_config_folder() {
    let log = Log::new(None, None, None, None);
    assert_eq!(log.path("/home/bot"), "/home/bot/.config/BEST-Bot/log");
}

#[test]
fn log_path_is_taken_relative_to_home() {
    let log = Log::new(None, None, None, Some("logs/bot".to_string()));
    assert_eq!(log.path("/home/bot"), "/home/bot/logs/bot");
    let log = Log::new(None, None, None, Some("/var/log/bot".to_string()));
    assert_eq!(log.path("/home/bot"), "/var/log/bot");
}

#[test]
fn log_duplicate_equals_the_source() {
    let log = Log::new(Some("debug".to_string()), Some(true), Some(false), Some("l".to_string()));
    assert_eq!(log.duplicate(), log);
}

#[test]
fn template_holds_the_documented_values() {
    let template = config_template();
    let expected = Config::new(
        Some(".config/BEST-Bot/libs".to_string()),
        Some(".config/BEST-Bot/plugins".to_string()),
        Slack {
            api_token: "zzzz-xxxxxxxxxxxx-yyyyyyyyyyyyyyyyyyyyyyyy".to_string(),
            admin_api_token:
                "zzzz-xxxxxxxxxxx-yyyyyyyyyyy-aaaaaaaaaaaa-bbbbbbbbbbbbbbbbbbbbbbbbbbbbbbbb"
                    .to_string(),
            incoming_webhooks_token: None,
            outgoing_webhooks_token: None,
        },
        Some(Log::new(Some("info".to_string()), Some(false), Some(true), None)),
    );
    assert_eq!(template, expected);
    assert_eq!(CONFIG_FOLDER, ".config/BEST-Bot");
}

#[test]
fn template_paths_resolve_below_home() {
    let template = config_template();
    assert_eq!(template.plugin_path("/home/bot"), "/home/bot/.config/BEST-Bot/libs");
    assert_eq!(template.plugin_config_path("/home/bot"), "/home/bot/.config/BEST-Bot/plugins");
}

#[test]
fn plugin_paths_default_to_the_config_folder() {
    let config = Config::new(None, None, tokens(), None);
    assert_eq!(config.plugin_path("/home/bot"), "/home/bot/.config/BEST-Bot/libs");
    assert_eq!(config.plugin_config_path("/home/bot"), "/home/bot/.config/BEST-Bot/plugins");
}

#[test]
fn plugin_paths_follow_the_settings() {
    let config =
        Config::new(Some("my/libs".to_string()), Some("/etc/bot".to_string()), tokens(), None);
    assert_eq!(config.plugin_path("/home/bot"), "/home/bot/my/libs");
    assert_eq!(config.plugin_config_path("/home/bot"), "/etc/bot");
}

#[test]
fn missing_log_options_fall_back_to_the_template() {
    let config = Config::new(None, None, tokens(), None);
    let log = config.log();
    assert_eq!(log, Log::new(Some("info".to_string()), Some(false), Some(true), None));
    assert_eq!(log.level(), LevelFilter::Info);
    assert!(!log.to_file());
    assert!(log.to_terminal());
}

#[test]
fn given_log_options_are_kept() {
    let given = Log::new(Some("debug".to_string()), Some(true), Some(false), None);
    let config = Config::new(None, None, tokens(), Some(given.duplicate()));
    assert_eq!(config.log(), given);
}

#[test]
fn config_hands_out_its_credentials() {
    let config = Config::new(None, None, tokens(), None);
    assert_eq!(config.slack, tokens());
    assert_eq!(config.slack.duplicate(), tokens());
}

#[test]
fn settings_file_lies_in_the_config_folder() {
    assert_eq!(path_config_dir("/home/bot"), "/home/bot/.config/BEST-Bot");
    assert_eq!(
        path_config_file("/home/bot", "default.toml"),
        "/home/bot/.config/BEST-Bot/default.toml"
    );
}

#[test]
fn secrets_carry_tokens_and_resolved_directory() {
    let config = Config::new(None, Some("plug/conf".to_string()), tokens(), None);
    let secrets = config.secrets("/home/bot");
    assert_eq!(*secrets.slack(), tokens());
    assert_eq!(secrets.plugin_config_path(), "/home/bot/plug/conf");
    assert_eq!(secrets, SecretStore::new(tokens(), "/home/bot/plug/conf".to_string()));
}
