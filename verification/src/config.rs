//! The configuration file, and what it comes to together with the command line.

use crate::cli::Cli;
use crate::text::{
    all_white, case_is_all_that_changes, lowered, same_ignoring_case, trim, trimmed,
    trimming_again_changes_nothing, trimming_takes_any_case, uppered, white_space_is_dropped,
};
use vstd::prelude::*;

verus! {

/// A colour theme.
#[derive(Clone, Copy, Debug, PartialEq, Eq, Structural)]
pub enum ThemeName {
    Graphite,
    Ember,
    Ocean,
}

impl Default for ThemeName {
    fn default() -> (theme: Self)
        ensures
            theme == ThemeName::Graphite,
    {
        ThemeName::Graphite
    }
}

/// The theme that a name stands for, whatever the case of its letters and the white space round
/// it.
pub open spec fn theme_named(name: Seq<char>) -> Option<ThemeName> {
    let key = lowered(trimmed(name));
    if key == lowered("graphite"@) {
        Some(ThemeName::Graphite)
    } else if key == lowered("ember"@) {
        Some(ThemeName::Ember)
    } else if key == lowered("ocean"@) {
        Some(ThemeName::Ocean)
    } else {
        None
    }
}

/// A theme is found whatever the case of the letters of its name and the white space round it.
pub proof fn theme_names_are_lenient(
    name: Seq<char>,
    other: Seq<char>,
    before: Seq<char>,
    behind: Seq<char>,
)
    requires
        lowered(other) == lowered(name),
        all_white(before),
        all_white(behind),
    ensures
        theme_named(before + other + behind) == theme_named(name),
        theme_named(uppered(name)) == theme_named(name),
        theme_named(trimmed(name)) == theme_named(name),
{
    white_space_is_dropped(before, other, behind);
    trimming_takes_any_case(name);
    trimming_takes_any_case(other);
    trimming_takes_any_case(uppered(name));
    case_is_all_that_changes(name);
    trimming_again_changes_nothing(name);
}

impl ThemeName {
    /// The theme that a name stands for.
    pub fn from_str(value: &str) -> (theme: Option<Self>)
        ensures
            theme == theme_named(value@),
    {
        let name = trim(value);
        if same_ignoring_case(name.as_str(), "graphite") {
            Some(ThemeName::Graphite)
        } else if same_ignoring_case(name.as_str(), "ember") {
            Some(ThemeName::Ember)
        } else if same_ignoring_case(name.as_str(), "ocean") {
            Some(ThemeName::Ocean)
        } else {
            None
        }
    }
}

/// The keys that are bound to actions, where they are not the default ones.
#[derive(Clone, Debug)]
pub struct KeymapConfig {
    pub quit: Option<String>,
    pub copy: Option<String>,
    pub toggle_stopped: Option<String>,
    pub start_stop: Option<String>,
    pub restart: Option<String>,
    pub remove: Option<String>,
}

impl Default for KeymapConfig {
    fn default() -> (keymap: Self)
        ensures
            keymap.quit is None,
            keymap.copy is None,
            keymap.toggle_stopped is None,
            keymap.start_stop is None,
            keymap.restart is None,
            keymap.remove is None,
    {
        KeymapConfig {
            quit: None,
            copy: None,
            toggle_stopped: None,
            start_stop: None,
            restart: None,
            remove: None,
        }
    }
}

/// The contents of the configuration file.
#[derive(Clone, Debug)]
pub struct AppConfig {
    pub theme: ThemeName,
    pub show_stopped_by_default: bool,
    pub log_backlog_lines: usize,
    pub show_timestamps: bool,
    pub keymap: KeymapConfig,
}

impl Default for AppConfig {
    fn default() -> (config: Self)
        ensures
            config.theme == ThemeName::Graphite,
            !config.show_stopped_by_default,
            config.log_backlog_lines == 400,
            config.show_timestamps,
            config.keymap == (KeymapConfig {
                quit: None,
                copy: None,
                toggle_stopped: None,
                start_stop: None,
                restart: None,
                remove: None,
            }),
    {
        AppConfig {
            theme: ThemeName::Graphite,
            show_stopped_by_default: false,
            log_backlog_lines: 400,
            show_timestamps: true,
            keymap: KeymapConfig::default(),
        }
    }
}

/// The settings that the program runs by.
#[derive(Clone, Debug)]
pub struct RuntimeConfig {
    pub theme: ThemeName,
    pub show_stopped_by_default: bool,
    pub log_backlog_lines: usize,
    pub show_timestamps: bool,
    pub keymap: KeymapConfig,
    pub docker_host: Option<String>,
    pub project_filter: Option<String>,
    pub startup_container_query: Option<String>,
}

/// A number of backlog lines within its limits.
pub open spec fn backlog_within_limits(lines: usize) -> usize {
    if lines < 50 {
        50
    } else if lines > 10_000 {
        10_000
    } else {
        lines
    }
}

/// The theme that the command line asks for, or the configured one where it names none.
pub open spec fn chosen_theme(cli: Cli, config: AppConfig) -> ThemeName {
    match cli.theme {
        Some(name) => match theme_named(name@) {
            Some(theme) => theme,
            None => config.theme,
        },
        None => config.theme,
    }
}

/// The settings that a command line and a configuration come to.
pub open spec fn settings(cli: Cli, config: AppConfig) -> RuntimeConfig {
    RuntimeConfig {
        theme: chosen_theme(cli, config),
        show_stopped_by_default: cli.all || config.show_stopped_by_default,
        log_backlog_lines: backlog_within_limits(config.log_backlog_lines),
        show_timestamps: config.show_timestamps,
        keymap: config.keymap,
        docker_host: cli.host,
        project_filter: cli.project,
        startup_container_query: cli.container,
    }
}

impl RuntimeConfig {
    /// The settings that a command line and a configuration come to: the command line overrides
    /// the configuration.
    pub fn from_sources(cli: Cli, config: AppConfig) -> (runtime: Self)
        ensures
            runtime == settings(cli, config),
    {
        let theme = match &cli.theme {
            Some(name) => match ThemeName::from_str(name.as_str()) {
                Some(theme) => theme,
                None => config.theme,
            },
            None => config.theme,
        };
        let log_backlog_lines: usize = if config.log_backlog_lines < 50 {
            50
        } else if config.log_backlog_lines > 10_000 {
            10_000
        } else {
            config.log_backlog_lines
        };
        RuntimeConfig {
            theme,
            show_stopped_by_default: cli.all || config.show_stopped_by_default,
            log_backlog_lines,
            show_timestamps: config.show_timestamps,
            keymap: config.keymap,
            docker_host: cli.host,
            project_filter: cli.project,
            startup_container_query: cli.container,
        }
    }
}

/// The number of backlog lines is always within its limits.
pub proof fn backlog_is_within_limits(cli: Cli, config: AppConfig)
    ensures
        50 <= settings(cli, config).log_backlog_lines <= 10_000,
{
}

/// A theme that the command line names well takes precedence over the configured one.
pub proof fn command_line_theme_wins(cli: Cli, config: AppConfig)
    requires
        cli.theme is Some,
        theme_named(cli.theme->0@) is Some,
    ensures
        settings(cli, config).theme == theme_named(cli.theme->0@)->0,
{
}

} // verus!
