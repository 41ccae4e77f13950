use codex_monitor::accounts::{Account, Launch};
use codex_monitor::config::{
    first_repeat, AppConfig, ConfigError, DiscordConfig, MonitorConfig, ScheduleConfig,
};
use codex_monitor::names::NameMap;
use codex_monitor::options::{help_text, Command, Options, OptionsError};

fn account_from(table: &toml::Value) -> Account {
    let text = |key: &str| table.get(key).unwrap().as_str().unwrap().to_owned();
    let mut environment = NameMap::new();
    if let Some(values) = table.get("environment") {
        for (name, value) in values.as_table().unwrap() {
            environment.insert(name.clone(), value.as_str().unwrap().to_owned());
        }
    }
    Account { name: text("name"), executable: text("executable"), environment }
}

fn config_from(source: &str) -> AppConfig {
    let table: toml::Table = source.parse().unwrap();
    AppConfig {
        accounts: table["accounts"].as_array().unwrap().iter().map(account_from).collect(),
        monitor: MonitorConfig::default(),
        schedule: ScheduleConfig::default(),
        discord: DiscordConfig::default(),
    }
}

fn valid() -> AppConfig {
    config_from("[[accounts]]\nname = \"Main\"\nexecutable = \"codex\"\n")
}

fn message(config: &AppConfig, font_is_file: bool) -> String {
    config.validate(font_is_file).unwrap_err().message()
}

#[test]
fn parses_accounts_and_defaults_optional_sections() {
    let config = config_from(
        r#"
            [[accounts]]
            name = "Alt"
            executable = "codex"
            environment = { CODEX_HOME = "/tmp/codex-alt" }
        "#,
    );
    config.validate(true).unwrap();
    assert_eq!(config.accounts[0].environment.get("CODEX_HOME").unwrap(), "/tmp/codex-alt");
    assert_eq!(config.schedule.interval_minutes, 30);
    assert_eq!(config.monitor.terminal_cols, 120);
}

#[test]
fn rejects_duplicate_account_names() {
    let config = config_from(
        r#"
            [[accounts]]
            name = "Main"
            executable = "codex"
            [[accounts]]
            name = "main"
            executable = "codex"
        "#,
    );
    assert!(config.validate(true).is_err());
    assert_eq!(message(&config, true), "duplicate account name: main");
}

#[test]
fn names_are_told_apart_without_regard_to_case() {
    let mut config = valid();
    config.accounts[0].name = "GRÜN".to_owned();
    let mut other = config.accounts[0].clone();
    other.name = "grün".to_owned();
    config.accounts.push(other);
    assert_eq!(message(&config, true), "duplicate account name: grün");
    config.accounts[1].name = "grun".to_owned();
    assert!(config.validate(true).is_ok());
}

#[test]
fn bad_accounts_are_refused() {
    let mut config = valid();
    config.accounts.clear();
    assert_eq!(
        message(&config, true),
        "configuration must contain at least one [[accounts]] entry"
    );
    let mut config = valid();
    config.accounts[0].name = " \t".to_owned();
    assert_eq!(message(&config, true), "account name cannot be empty");
    let mut config = valid();
    config.accounts[0].executable = String::new();
    assert_eq!(message(&config, true), "account Main has an empty executable");
}

#[test]
fn intervals_must_divide_the_hour() {
    let mut config = valid();
    for minutes in 0..=120 {
        config.schedule.interval_minutes = minutes;
        let divides = [1, 2, 3, 4, 5, 6, 10, 12, 15, 20, 30, 60].contains(&minutes);
        assert_eq!(config.validate(true).is_ok(), divides, "{minutes}");
    }
    assert_eq!(
        message(&config, true),
        "schedule.interval_minutes must be a positive divisor of 60"
    );
}

#[test]
fn terminals_must_hold_a_card() {
    let mut config = valid();
    config.monitor.terminal_rows = 20;
    config.monitor.terminal_cols = 60;
    assert!(config.validate(true).is_ok());
    config.monitor.terminal_rows = 19;
    assert_eq!(
        message(&config, true),
        "monitor terminal size must be at least 20 rows by 60 columns"
    );
    config.monitor.terminal_rows = 20;
    config.monitor.terminal_cols = 59;
    assert!(matches!(config.validate(true), Err(ConfigError::TerminalTooSmall)));
}

#[test]
fn timeouts_must_not_be_zero() {
    for which in 0..5 {
        let mut config = valid();
        match which {
            0 => config.monitor.startup_timeout_seconds = 0,
            1 => config.monitor.status_timeout_seconds = 0,
            2 => config.monitor.model_turn_timeout_seconds = 0,
            3 => config.monitor.overall_timeout_seconds = 0,
            _ => config.monitor.refresh_pause_seconds = 0,
        }
        if which < 4 {
            assert_eq!(
                message(&config, true),
                "monitor timeout values must be greater than zero"
            );
        } else {
            assert!(config.validate(true).is_ok());
        }
    }
}

#[test]
fn delivery_settings_are_checked() {
    let mut config = valid();
    config.discord.webhook_env = " ".to_owned();
    assert_eq!(message(&config, true), "discord.webhook_env cannot be empty");
    let mut config = valid();
    config.discord.request_timeout_seconds = 0;
    assert_eq!(
        message(&config, true),
        "discord.request_timeout_seconds must be greater than zero"
    );
    let mut config = valid();
    config.discord.status_font_path = "/no/font".to_owned();
    assert_eq!(message(&config, false), "discord.status_font_path is not a file: /no/font");
}

#[test]
fn font_sizes_lie_between_eight_and_forty_eight() {
    let mut config = valid();
    assert_eq!(config.discord.status_font_size_bits, 18.0_f32.to_bits());
    for size in [8.0_f32, 8.5, 18.0, 47.999, 48.0] {
        config.discord.status_font_size_bits = size.to_bits();
        assert!(config.validate(true).is_ok(), "{size}");
    }
    for size in [7.999_999_f32, 48.000_004, 0.0, -18.0, f32::NAN, f32::INFINITY, -f32::INFINITY] {
        config.discord.status_font_size_bits = size.to_bits();
        assert_eq!(message(&config, true), "discord.status_font_size must be between 8 and 48");
    }
}

#[test]
fn the_first_fault_is_reported() {
    let mut config = valid();
    config.schedule.interval_minutes = 7;
    config.monitor.terminal_rows = 1;
    config.discord.request_timeout_seconds = 0;
    assert!(matches!(config.validate(false), Err(ConfigError::BadInterval)));
    config.accounts[0].executable = String::new();
    assert!(matches!(config.validate(false), Err(ConfigError::EmptyExecutable(_))));
}

#[test]
fn configured_seconds_become_settings() {
    let monitor = MonitorConfig {
        terminal_rows: 30,
        terminal_cols: 90,
        startup_timeout_seconds: 1,
        status_timeout_seconds: 2,
        model_turn_timeout_seconds: 3,
        refresh_pause_seconds: 0,
        overall_timeout_seconds: u64::MAX,
    };
    let settings = monitor.settings();
    assert_eq!((settings.terminal_rows, settings.terminal_cols), (30, 90));
    assert_eq!(settings.startup.nanos, 1_000_000_000);
    assert_eq!(settings.status.nanos, 2_000_000_000);
    assert_eq!(settings.model_turn.nanos, 3_000_000_000);
    assert_eq!(settings.refresh_pause.nanos, 0);
    assert_eq!(settings.overall.nanos, u64::MAX as u128 * 1_000_000_000);
}

#[test]
fn account_environment_wins_over_the_terminal_type() {
    let mut account = valid().accounts.remove(0);
    let launch = Launch::new(&account);
    assert_eq!(launch.program, "codex");
    assert_eq!(launch.arguments, ["-c", "check_for_update_on_startup=false"]);
    assert_eq!(launch.environment.get("TERM").unwrap(), "xterm-256color");
    assert_eq!(launch.reader_name, "codex-pty-Main");
    assert_eq!(launch.failure_context(), "failed to start codex");
    account.environment.insert("TERM".to_owned(), "dumb".to_owned());
    account.environment.insert("CODEX_HOME".to_owned(), "/a".to_owned());
    let launch = Launch::new(&account);
    assert_eq!(launch.environment.get("TERM").unwrap(), "dumb");
    assert_eq!(launch.environment.get("CODEX_HOME").unwrap(), "/a");
    assert_eq!(launch.environment.get("HOME"), None);
}

#[test]
fn names_hold_one_value_each() {
    let mut map: NameMap<u8> = NameMap::new();
    map.insert("a".to_owned(), 1);
    map.insert("b".to_owned(), 2);
    map.insert("a".to_owned(), 3);
    assert_eq!(map.get("a"), Some(&3));
    assert_eq!(map.entries.len(), 2);
    assert_eq!(map.remove("a"), Some(3));
    assert_eq!(map.remove("a"), None);
    assert_eq!(map.get("b"), Some(&2));
}

fn parse(arguments: &[&str]) -> Result<Command, OptionsError> {
    let arguments: Vec<String> = arguments.iter().map(|argument| (*argument).to_owned()).collect();
    Options::parse(&arguments)
}

fn run(arguments: &[&str]) -> (bool, bool, String) {
    match parse(arguments) {
        Ok(Command::Run(options)) => (options.once, options.no_discord, options.config_path),
        _ => panic!("no run"),
    }
}

#[test]
fn command_lines_are_read() {
    assert_eq!(run(&[]), (false, false, "config.toml".to_owned()));
    assert_eq!(run(&["--once"]), (true, false, "config.toml".to_owned()));
    assert_eq!(
        run(&["--config", "a.toml", "--no-discord", "--once", "--config", "--once"]),
        (true, true, "--once".to_owned())
    );
}

#[test]
fn bad_command_lines_are_refused() {
    assert_eq!(
        parse(&["--once", "--config"]).unwrap_err().message(),
        "--config requires a file path"
    );
    assert_eq!(parse(&["--Once", "--help"]).unwrap_err().message(), "unknown argument: --Once");
    assert_eq!(parse(&[""]).unwrap_err().message(), "unknown argument: ");
}

#[test]
fn help_is_shown_before_later_arguments_are_read() {
    assert!(matches!(parse(&["--once", "-h", "--bad"]), Ok(Command::Help)));
    assert!(matches!(parse(&["--help"]), Ok(Command::Help)));
    assert!(help_text().starts_with("codex-monitor\n\nUSAGE:\n"));
    assert!(help_text().ends_with("(default: config.toml)\n"));
}

#[test]
fn the_first_repeated_name_is_found() {
    let names = |all: &[&str]| all.iter().map(|name| name.to_string()).collect::<Vec<String>>();
    assert_eq!(first_repeat(&names(&[])), None);
    assert_eq!(first_repeat(&names(&["main"])), None);
    assert_eq!(first_repeat(&names(&["main", "alt", "Main"])), None);
    assert_eq!(first_repeat(&names(&["main", "alt", "main", "alt"])), Some(2));
    assert_eq!(first_repeat(&names(&["", "alt", "alt", ""])), Some(2));
}
