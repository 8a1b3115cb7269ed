use mountpoint_core::logging::file_name::{log_file_name, UtcDateTime};
use mountpoint_core::logging::filter::{
    configured_filter, create_env_filter, create_filter, environment_filter, is_safe_to_choose, is_safe_to_parse,
    LogLevel,
};
use mountpoint_core::logging::panic_report::tracing_panic_hook;
use mountpoint_core::logging::verbosity::{SignalAction, Verbosity, VerbosityCycle};
use mountpoint_core::logging::{
    after_step, init_logging, init_tracing_subscriber, subscriber_steps, try_init_logging, with_panic_hook, LoggingConfig,
    LoggingStep,
};
use std::path::PathBuf;

fn config(directory: Option<&str>, log_to_stdout: bool, filter: &str) -> LoggingConfig {
    LoggingConfig {
        log_directory: directory.map(PathBuf::from),
        log_to_stdout,
        default_filter: filter.to_string(),
    }
}

fn names(steps: &[LoggingStep<'_>]) -> Vec<&'static str> {
    steps
        .iter()
        .map(|step| match step {
            LoggingStep::InitCrtLogger => "crt",
            LoggingStep::NameLogFile => "name",
            LoggingStep::CreateLogDirectory { .. } => "directory",
            LoggingStep::OpenLogFile { .. } => "file",
            LoggingStep::StartFilterReload { .. } => "reload",
            LoggingStep::OpenSyslog => "syslog",
            LoggingStep::OpenConsole { .. } => "console",
            LoggingStep::InitRegistry { .. } => "registry",
            LoggingStep::InstallPanicHook => "panic",
        })
        .collect()
}

#[test]
fn logs_to_a_directory() {
    let config = config(Some("/var/log/mountpoint"), false, "info");
    let (choice, steps) = init_logging(&config, None, false);
    assert_eq!(names(&steps), ["crt", "name", "directory", "file", "registry", "panic"]);
    assert!(!choice.from_environment);
    assert_eq!(choice.directives, "info");
    assert_eq!(choice.max_level_hint, Some(LogLevel::Info));
    let path = PathBuf::from("/var/log/mountpoint");
    assert!(matches!(steps[2], LoggingStep::CreateLogDirectory { path: p, recursive: true, mode: 0o750 } if *p == path));
    assert!(matches!(steps[3], LoggingStep::OpenLogFile { directory: p, append: true, create: true, mode: 0o640, ansi: false } if *p == path));
}

#[test]
fn logs_to_syslog_by_default() {
    let config = config(None, false, "warn");
    let (_, steps) = init_logging(&config, None, false);
    assert_eq!(names(&steps), ["crt", "reload", "syslog", "registry", "panic"]);
    assert!(matches!(steps[1], LoggingStep::StartFilterReload { default_filter } if default_filter == "warn"));
}

#[test]
fn logs_to_stdout_in_addition() {
    let to_file = config(Some("/logs"), true, "warn");
    assert_eq!(
        names(&init_logging(&to_file, None, false).1),
        ["crt", "name", "directory", "file", "console", "registry", "panic"]
    );
    let to_syslog = config(None, true, "warn");
    assert_eq!(
        names(&init_tracing_subscriber(&to_syslog, None, false).1),
        ["crt", "reload", "syslog", "console", "registry"]
    );
}

#[test]
fn stdout_is_coloured_where_it_supports_color() {
    let to_stdout = config(None, true, "warn");
    for color in [false, true] {
        let (_, steps) = init_logging(&to_stdout, None, color);
        assert!(matches!(steps[3], LoggingStep::OpenConsole { ansi } if ansi == color));
    }
    let to_file = config(Some("/logs"), true, "warn");
    let (_, steps) = init_logging(&to_file, None, true);
    assert!(matches!(steps[3], LoggingStep::OpenLogFile { ansi: false, .. }));
    assert!(matches!(steps[4], LoggingStep::OpenConsole { ansi: true }));
}

#[test]
fn the_subscriber_has_the_metrics_layer() {
    let config = config(None, false, "warn");
    let (_, steps) = init_logging(&config, None, false);
    assert!(matches!(steps[3], LoggingStep::InitRegistry { metrics: true }));
}

#[test]
fn directives_that_would_be_cut_inside_a_character() {
    for text in ["\u{3000}a=info", " \u{e9}=info", "info, \u{e9}[x]=info", "\u{a0}[x]", " \u{e9}[{a}]=info"] {
        assert!(!is_safe_to_parse(text));
    }
}

#[test]
fn directives_that_are_safe_to_parse() {
    for (text, level) in [
        ("", LogLevel::Error),
        (" a=info", LogLevel::Error),
        ("\u{e9}=info", LogLevel::Info),
        ("warn,\u{e9}[x]=debug", LogLevel::Debug),
        ("\u{3000}a", LogLevel::Trace),
        (" \u{e9}", LogLevel::Trace),
        (" a=\u{e9}", LogLevel::Error),
        (" \u{e9},a=warn", LogLevel::Trace),
        ("a=info\u{3000}", LogLevel::Error),
        (" \u{e9}a=info", LogLevel::Error),
        ("warn, \u{e9}cran=info", LogLevel::Warn),
        ("warn, \u{e9}cran[x]=info", LogLevel::Warn),
        ("\u{3000}abc[x]", LogLevel::Trace),
        ("warn,a[\u{e9}]=debug", LogLevel::Debug),
    ] {
        assert!(is_safe_to_parse(text));
        assert_eq!(create_env_filter(None, text).max_level_hint, Some(level));
    }
}

#[test]
fn only_the_directives_that_are_parsed_have_to_be_safe() {
    let unsafe_text = " \u{e9}=info";
    assert!(is_safe_to_choose(Some("warn"), unsafe_text));
    assert!(!is_safe_to_choose(Some("a=lolwut"), unsafe_text));
    assert!(!is_safe_to_choose(Some(unsafe_text), "warn"));
    assert!(!is_safe_to_choose(None, unsafe_text));
    assert!(is_safe_to_choose(None, "warn"));
    let config = config(None, false, unsafe_text);
    assert!(try_init_logging(&config, None, false).is_none());
    let (choice, steps) = try_init_logging(&config, Some("warn"), false).unwrap();
    assert_eq!(choice.directives, "warn");
    assert_eq!(names(&steps), ["crt", "reload", "syslog", "registry", "panic"]);
}

#[test]
fn opens_nothing_when_off() {
    let off = config(Some("/logs"), true, "off");
    let (choice, steps) = init_logging(&off, None, false);
    assert_eq!(choice.max_level_hint, Some(LogLevel::Off));
    assert_eq!(names(&steps), ["panic"]);
    assert_eq!(init_tracing_subscriber(&off, None, false).1.len(), 0);
    assert_eq!(subscriber_steps(&off, Some(LogLevel::Off), false).len(), 0);
    assert_eq!(subscriber_steps(&off, None, false).len(), 6);
}

#[test]
fn the_environment_overrides_the_default_filter() {
    let on = config(None, false, "info");
    let (choice, steps) = init_logging(&on, Some("off"), false);
    assert!(choice.from_environment);
    assert_eq!(choice.directives, "off");
    assert_eq!(names(&steps), ["panic"]);

    let off = config(None, false, "off");
    let (choice, steps) = init_logging(&off, Some("debug,awscrt=off"), false);
    assert_eq!(choice.max_level_hint, Some(LogLevel::Debug));
    assert_eq!(names(&steps), ["crt", "reload", "syslog", "registry", "panic"]);
}

#[test]
fn an_invalid_environment_is_passed_over() {
    let choice = create_env_filter(Some("mountpoint=lolwut"), "warn");
    assert!(!choice.from_environment);
    assert_eq!(choice.directives, "warn");
    assert_eq!(choice.max_level_hint, Some(LogLevel::Warn));
}

#[test]
fn an_empty_environment_turns_logging_off() {
    let choice = create_env_filter(Some(""), "warn");
    assert!(choice.from_environment);
    assert_eq!(choice.directives, "");
    assert_eq!(choice.max_level_hint, Some(LogLevel::Off));
}

#[test]
fn invalid_default_directives_are_ignored() {
    assert_eq!(create_env_filter(None, "").max_level_hint, Some(LogLevel::Error));
    assert_eq!(create_env_filter(None, "mountpoint=lolwut").max_level_hint, Some(LogLevel::Error));
    assert_eq!(create_env_filter(None, "mountpoint=lolwut,trace").max_level_hint, Some(LogLevel::Trace));
}

#[test]
fn filter_choices() {
    let choice = environment_filter("a=info", Some(Some(LogLevel::Info))).unwrap();
    assert!(choice.from_environment);
    assert_eq!(choice.directives, "a=info");
    assert_eq!(choice.max_level_hint, Some(LogLevel::Info));
    assert!(environment_filter("a=lolwut", None).is_none());
    let choice = configured_filter("error", None);
    assert!(!choice.from_environment);
    assert_eq!(choice.directives, "error");
    assert_eq!(choice.max_level_hint, None);
}

#[test]
fn errors_have_context() {
    let config = config(Some("/logs"), true, "info");
    let (_, steps) = init_logging(&config, None, false);
    let contexts: Vec<Option<&str>> = steps.iter().map(|step| step.context()).collect();
    assert_eq!(
        contexts,
        [
            Some("failed to initialize CRT logger"),
            Some("couldn't format log file name"),
            Some("failed to create log folder"),
            Some("failed to create log file"),
            None,
            None,
            None,
        ]
    );
    assert!(steps.iter().all(|step| step.is_required()));
    assert!(!LoggingStep::OpenSyslog.is_required());
}

/// The steps that are taken where those named in `failing` fail, and the context of the error.
fn run<'a>(steps: &[LoggingStep<'a>], failing: &[&str]) -> (Vec<&'static str>, Option<Option<&'static str>>) {
    let all = names(steps);
    for (i, step) in steps.iter().enumerate() {
        let error = after_step(step, failing.contains(&all[i]));
        if error.is_some() {
            return (all[..i + 1].to_vec(), error);
        }
    }
    (all, None)
}

#[test]
fn the_first_failure_ends_the_setup() {
    let to_file = config(Some("/logs"), false, "info");
    let (_, steps) = init_logging(&to_file, None, false);
    assert_eq!(run(&steps, &[]), (vec!["crt", "name", "directory", "file", "registry", "panic"], None));
    assert_eq!(
        run(&steps, &["directory", "file"]),
        (vec!["crt", "name", "directory"], Some(Some("failed to create log folder")))
    );
    assert_eq!(run(&steps, &["crt", "panic"]), (vec!["crt"], Some(Some("failed to initialize CRT logger"))));

    let to_syslog = config(None, false, "info");
    let (_, steps) = init_logging(&to_syslog, None, false);
    assert_eq!(run(&steps, &["reload"]), (vec!["crt", "reload"], Some(None)));
    assert_eq!(run(&steps, &["syslog"]), (vec!["crt", "reload", "syslog", "registry", "panic"], None));
}

#[test]
fn the_panic_hook_comes_last() {
    let config = config(None, true, "info");
    let steps = with_panic_hook(subscriber_steps(&config, Some(LogLevel::Info), false));
    assert_eq!(names(&steps), names(&init_logging(&config, None, false).1));
    assert_eq!(names(&with_panic_hook(Vec::new())), ["panic"]);
}

fn moment(year: i32, month: u8, day: u8, hour: u8, minute: u8, second: u8) -> UtcDateTime {
    UtcDateTime { year, month, day, hour, minute, second }
}

#[test]
fn log_file_names() {
    assert_eq!(
        log_file_name(moment(2024, 2, 29, 3, 4, 5)).unwrap(),
        "mountpoint-s3-2024-02-29T03-04-05Z.log"
    );
    assert_eq!(
        log_file_name(moment(9999, 12, 31, 23, 59, 59)).unwrap(),
        "mountpoint-s3-9999-12-31T23-59-59Z.log"
    );
    assert_eq!(log_file_name(moment(7, 1, 1, 0, 0, 0)).unwrap(), "mountpoint-s3-0007-01-01T00-00-00Z.log");
    assert_eq!(log_file_name(moment(-44, 3, 15, 12, 0, 0)).unwrap(), "mountpoint-s3--0044-03-15T12-00-00Z.log");
}

#[test]
fn moments_that_are_not_of_the_calendar_name_no_file() {
    assert!(log_file_name(moment(2023, 2, 29, 0, 0, 0)).is_none());
    assert!(log_file_name(moment(1900, 2, 29, 0, 0, 0)).is_none());
    assert!(log_file_name(moment(2000, 2, 29, 0, 0, 0)).is_some());
    assert!(log_file_name(moment(2023, 4, 31, 0, 0, 0)).is_none());
    assert!(log_file_name(moment(2023, 0, 1, 0, 0, 0)).is_none());
    assert!(log_file_name(moment(2023, 13, 1, 0, 0, 0)).is_none());
    assert!(log_file_name(moment(2023, 1, 0, 0, 0, 0)).is_none());
    assert!(log_file_name(moment(2023, 1, 1, 24, 0, 0)).is_none());
    assert!(log_file_name(moment(2023, 1, 1, 0, 60, 0)).is_none());
    assert!(log_file_name(moment(2023, 1, 1, 0, 0, 60)).is_none());
    assert!(log_file_name(moment(10_000, 1, 1, 0, 0, 0)).is_none());
    assert!(log_file_name(moment(-10_000, 1, 1, 0, 0, 0)).is_none());
}

#[test]
fn filters_for_levels() {
    assert_eq!(create_filter(LogLevel::Debug, "awscrt", LogLevel::Off), "debug,awscrt=off");
    assert_eq!(create_filter(LogLevel::Trace, "awscrt", LogLevel::Trace), "trace,awscrt=trace");
    assert_eq!(create_filter(LogLevel::Error, "x", LogLevel::Warn), "error,x=warn");
    assert_eq!(LogLevel::Info.as_str(), "info");
}

#[test]
fn signals_step_through_the_verbosities() {
    let expected = [
        ("Changing log verbosity to debug level", "debug,awscrt=off"),
        ("Changing log verbosity to debug level including CRT", "debug,awscrt=debug"),
        ("Changing log verbosity to trace level", "trace,awscrt=off"),
        ("Changing log verbosity to trace level including CRT", "trace,awscrt=trace"),
        ("Changing log verbosity to default level: warn,awscrt=off", "warn,awscrt=off"),
    ];
    let mut cycle = VerbosityCycle::new(12, "warn,awscrt=off".to_string(), "awscrt".to_string());
    for _ in 0..51 {
        for (text, directives) in expected {
            match cycle.on_signal(12) {
                SignalAction::Reload { announcement, filter } => {
                    assert_eq!(announcement, text);
                    assert_eq!(filter, directives);
                }
                SignalAction::Ignore { .. } => panic!("ignored"),
            }
        }
    }
    // The counter has reached its last value and starts over.
    assert!(matches!(cycle.on_signal(12), SignalAction::Reload { filter, .. } if filter == "warn,awscrt=off"));
    assert!(matches!(cycle.on_signal(12), SignalAction::Reload { filter, .. } if filter == "debug,awscrt=off"));
}

#[test]
fn other_signals_are_ignored() {
    let mut cycle = VerbosityCycle::new(12, "warn".to_string(), "awscrt".to_string());
    assert!(matches!(cycle.on_signal(10), SignalAction::Ignore { signal: 10 }));
    assert!(matches!(cycle.on_signal(12), SignalAction::Reload { filter, .. } if filter == "debug,awscrt=off"));
}

#[test]
fn verbosities_repeat_every_five() {
    assert_eq!(Verbosity::at(0), Verbosity::Default);
    assert_eq!(Verbosity::at(4), Verbosity::TraceCrt);
    assert_eq!(Verbosity::at(253), Verbosity::Trace);
    for count in 0..=250u8 {
        assert_eq!(Verbosity::at(count), Verbosity::at(count + 5));
    }
}

#[test]
fn panics_are_reported() {
    let report = tracing_panic_hook("Thread(1)", Some("src/main.rs:1:2"), Some("oh no"), "0: main");
    assert_eq!(report.panic, "panic on Thread(1) at src/main.rs:1:2: oh no");
    assert_eq!(report.backtrace, "backtrace:\n0: main");
    let report = tracing_panic_hook("t", None, None, "");
    assert_eq!(report.panic, "panic on t at <unknown>: <unknown payload>");
    assert_eq!(report.backtrace, "backtrace:\n");
}
