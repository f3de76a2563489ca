use dui::cli::Cli;
use dui::config::{AppConfig, RuntimeConfig, ThemeName};

#[test]
fn runtime_config_respects_cli_overrides() {
    let cli = Cli {
        config: None,
        host: Some("unix:///tmp/docker.sock".into()),
        all: true,
        project: Some("demo".into()),
        container: Some("api".into()),
        theme: Some("ocean".into()),
    };

    let runtime = RuntimeConfig::from_sources(cli, AppConfig::default());
    assert_eq!(runtime.theme, ThemeName::Ocean);
    assert!(runtime.show_stopped_by_default);
    assert_eq!(runtime.project_filter.as_deref(), Some("demo"));
    assert_eq!(runtime.startup_container_query.as_deref(), Some("api"));
    assert_eq!(runtime.docker_host.as_deref(), Some("unix:///tmp/docker.sock"));
}

fn no_options() -> Cli {
    Cli { config: None, host: None, all: false, project: None, container: None, theme: None }
}

#[test]
fn configured_values_stand_where_the_command_line_is_silent() {
    let mut config = AppConfig::default();
    config.theme = ThemeName::Ember;
    config.show_stopped_by_default = true;
    config.show_timestamps = false;
    config.keymap.quit = Some("x".into());
    let runtime = RuntimeConfig::from_sources(no_options(), config);
    assert_eq!(runtime.theme, ThemeName::Ember);
    assert!(runtime.show_stopped_by_default);
    assert!(!runtime.show_timestamps);
    assert_eq!(runtime.log_backlog_lines, 400);
    assert_eq!(runtime.keymap.quit.as_deref(), Some("x"));
    assert_eq!(runtime.docker_host, None);
}

#[test]
fn backlog_is_brought_within_its_limits() {
    for (given, expected) in [(0, 50), (50, 50), (77, 77), (10_000, 10_000), (10_001, 10_000)] {
        let mut config = AppConfig::default();
        config.log_backlog_lines = given;
        let runtime = RuntimeConfig::from_sources(no_options(), config);
        assert_eq!(runtime.log_backlog_lines, expected);
    }
}

#[test]
fn unknown_theme_leaves_the_configured_one() {
    let mut cli = no_options();
    cli.theme = Some("sunset".into());
    let mut config = AppConfig::default();
    config.theme = ThemeName::Ocean;
    assert_eq!(RuntimeConfig::from_sources(cli, config).theme, ThemeName::Ocean);
}

#[test]
fn themes_are_named_whatever_the_case() {
    assert_eq!(ThemeName::from_str(" Graphite "), Some(ThemeName::Graphite));
    assert_eq!(ThemeName::from_str("EMBER"), Some(ThemeName::Ember));
    assert_eq!(ThemeName::from_str("ocean\n"), Some(ThemeName::Ocean));
    assert_eq!(ThemeName::from_str(""), None);
    assert_eq!(ThemeName::default(), ThemeName::Graphite);
}

#[test]
fn theme_names_take_any_case_and_white_space() {
    for (name, theme) in [
        ("graphite", ThemeName::Graphite),
        ("ember", ThemeName::Ember),
        ("ocean", ThemeName::Ocean),
    ] {
        let upper = name.to_uppercase();
        assert_eq!(ThemeName::from_str(&upper), Some(theme));
        assert_eq!(ThemeName::from_str(&format!("\t\u{3000} {upper}\n ")), Some(theme));
    }
    assert_eq!(ThemeName::from_str(" oce an "), None);
}
