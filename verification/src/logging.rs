//! How logging is set up.
//!
//! Setting up logging is a list of steps, worked out here and carried out in order by the
//! caller. After each step [`after_step`] says whether the setup has failed and goes no further.
pub mod file_name;
pub mod filter;
pub mod panic_report;
pub mod verbosity;

use self::filter::{
    create_env_filter, is_safe_to_choose, lossy_filter_level, safe_to_choose, strict_filter_level,
    FilterChoice, LogLevel,
};
use self::panic_report::optional_text;
use std::path::PathBuf;
use vstd::prelude::*;

verus! {

/// `std::path::PathBuf`, opaque.
#[verifier::external_type_specification]
#[verifier::external_body]
pub struct ExPathBuf(PathBuf);

/// The environment variable that overrides the default filter.
pub const LOG_FILTER_VARIABLE: &'static str = "MOUNTPOINT_LOG";

/// Permissions of a log directory: not accessible by other users.
pub const LOG_DIRECTORY_MODE: u32 = 0o750;

/// Permissions of a log file: not accessible by other users.
pub const LOG_FILE_MODE: u32 = 0o640;

/// Configuration of logging.
#[derive(Debug)]
pub struct LoggingConfig {
    /// A directory to create log files in. If unspecified, logs are routed to syslog.
    pub log_directory: Option<PathBuf>,
    /// Whether to duplicate logs to stdout in addition to syslog or the log directory.
    pub log_to_stdout: bool,
    /// The default filter directives, overridden by those that the environment variable
    /// `MOUNTPOINT_LOG` holds.
    pub default_filter: String,
}

/// One step of setting up logging.
#[derive(Debug, Clone, Copy)]
pub enum LoggingStep<'a> {
    /// Route the CRT's log messages into the subscriber.
    InitCrtLogger,
    /// Work out the name of the log file from the current time.
    NameLogFile,
    /// Create a directory with these permissions, along with those above it if `recursive`.
    CreateLogDirectory { path: &'a PathBuf, recursive: bool, mode: u32 },
    /// Open the log file in a directory, for appending if `append`, creating it with these
    /// permissions if `create` and it is not there. Messages are coloured if `ansi`.
    OpenLogFile { directory: &'a PathBuf, append: bool, create: bool, mode: u32, ansi: bool },
    /// Listen for the signal that changes the verbosity of syslog. The default verbosity has
    /// these directives.
    StartFilterReload { default_filter: &'a String },
    /// Open syslog.
    OpenSyslog,
    /// Log to stdout. Messages are coloured if `ansi`.
    OpenConsole { ansi: bool },
    /// Install the subscriber, with all that was opened, and with the layer that turns spans into
    /// metrics if `metrics`.
    InitRegistry { metrics: bool },
    /// Log panics before they are handled as they were before.
    InstallPanicHook,
}

impl<'a> LoggingStep<'a> {
    /// What an error of a step is reported as, where anything is added to the error itself.
    pub open spec fn error_context(self) -> Option<Seq<char>> {
        match self {
            LoggingStep::InitCrtLogger => Some("failed to initialize CRT logger"@),
            LoggingStep::NameLogFile => Some("couldn't format log file name"@),
            LoggingStep::CreateLogDirectory { .. } => Some("failed to create log folder"@),
            LoggingStep::OpenLogFile { .. } => Some("failed to create log file"@),
            _ => None,
        }
    }

    /// What becomes of the setup once this step was taken: nothing where it goes on, and otherwise
    /// what is added to the error.
    pub open spec fn verdict(self, failed: bool) -> Option<Option<Seq<char>>> {
        if failed && self !is OpenSyslog {
            Some(self.error_context())
        } else {
            None
        }
    }

    /// What an error of this step is to be reported as, where anything is to be added to the
    /// error itself.
    pub fn context(&self) -> (r: Option<&'static str>)
        ensures
            optional_text(r) == self.error_context(),
    {
        match self {
            LoggingStep::InitCrtLogger => Some("failed to initialize CRT logger"),
            LoggingStep::NameLogFile => Some("couldn't format log file name"),
            LoggingStep::CreateLogDirectory { .. } => Some("failed to create log folder"),
            LoggingStep::OpenLogFile { .. } => Some("failed to create log file"),
            _ => None,
        }
    }

    /// Whether an error of this step ends the setup. Syslog is the one thing that may be missing:
    /// it is only a default.
    pub fn is_required(&self) -> (r: bool)
        ensures
            r <==> *self !is OpenSyslog,
    {
        match self {
            LoggingStep::OpenSyslog => false,
            _ => true,
        }
    }
}

/// Decides what becomes of the setup once a step was taken: nothing where it goes on, and otherwise
/// what is to be added to the error of the step, which ends it.
pub fn after_step<'a>(step: &LoggingStep<'a>, failed: bool) -> (r: Option<Option<&'static str>>)
    ensures
        r is Some <==> failed && *step !is OpenSyslog,
        r matches Some(context) ==> Some(optional_text(context)) == step.verdict(failed),
        r is None <==> step.verdict(failed) is None,
        r matches Some(context) ==> optional_text(context) == step.error_context(),
{
    if failed && step.is_required() {
        Some(step.context())
    } else {
        None
    }
}

/// How many of `steps` are taken, where `failed` says of each whether it fails if it is taken.
pub open spec fn steps_taken<'a>(steps: Seq<LoggingStep<'a>>, failed: Seq<bool>) -> int
    decreases steps.len(),
{
    if steps.len() == 0 {
        0
    } else if steps[0].verdict(failed[0]) is Some {
        1
    } else {
        1 + steps_taken(steps.drop_first(), failed.drop_first())
    }
}

/// How the setup ends: without an error, or with one, and what is added to it.
pub open spec fn setup_error<'a>(steps: Seq<LoggingStep<'a>>, failed: Seq<bool>) -> Option<
    Option<Seq<char>>,
>
    decreases steps.len(),
{
    if steps.len() == 0 {
        None
    } else if steps[0].verdict(failed[0]) is Some {
        steps[0].verdict(failed[0])
    } else {
        setup_error(steps.drop_first(), failed.drop_first())
    }
}

/// The setup fails exactly where a step fails that is not the opening of syslog. The first such
/// step gives the error its context, and no later step is taken. Otherwise all are.
pub proof fn law_first_failure_ends_setup<'a>(steps: Seq<LoggingStep<'a>>, failed: Seq<bool>)
    requires
        failed.len() == steps.len(),
    ensures
        setup_error(steps, failed) is Some <==> exists|i: int|
            0 <= i < steps.len() && #[trigger] failed[i] && steps[i] !is OpenSyslog,
        setup_error(steps, failed) matches Some(context) ==> {
            let last = steps_taken(steps, failed) - 1;
            &&& 0 <= last < steps.len()
            &&& failed[last]
            &&& steps[last] !is OpenSyslog
            &&& context == steps[last].error_context()
            &&& forall|i: int|
                0 <= i < last ==> !(#[trigger] failed[i]) || steps[i] is OpenSyslog
        },
        setup_error(steps, failed) is None ==> steps_taken(steps, failed) == steps.len(),
    decreases steps.len(),
{
    if steps.len() > 0 {
        let rest = steps.drop_first();
        let rest_failed = failed.drop_first();
        law_first_failure_ends_setup(rest, rest_failed);
        if steps[0].verdict(failed[0]) is Some {
            assert(failed[0]);
        } else {
            assert forall|i: int| 0 <= i < rest.len() implies #[trigger] rest_failed[i] == failed[i
                + 1] && rest[i] == steps[i + 1] by {}
            if setup_error(steps, failed) is Some {
                let i = choose|i: int|
                    0 <= i < rest.len() && #[trigger] rest_failed[i] && rest[i] !is OpenSyslog;
                assert(failed[i + 1]);
                let last = steps_taken(steps, failed) - 1;
                assert(failed[last] == rest_failed[last - 1]);
                assert forall|j: int| 0 <= j < last implies !(#[trigger] failed[j]) || steps[j] is OpenSyslog by {
                    if j > 0 {
                        assert(rest_failed[j - 1] == failed[j]);
                    }
                }
            } else {
                assert forall|i: int| 0 <= i < steps.len() implies !(#[trigger] failed[i]
                    && steps[i] !is OpenSyslog) by {
                    if i > 0 {
                        assert(rest_failed[i - 1] == failed[i]);
                    }
                }
            }
        }
    }
}

/// The steps that open the place where logs are kept: a file, or syslog.
pub open spec fn sink_steps<'a>(config: &'a LoggingConfig) -> Seq<LoggingStep<'a>> {
    match &config.log_directory {
        Some(path) => seq![
            LoggingStep::NameLogFile,
            LoggingStep::CreateLogDirectory { path, recursive: true, mode: LOG_DIRECTORY_MODE },
            LoggingStep::OpenLogFile {
                directory: path,
                append: true,
                create: true,
                mode: LOG_FILE_MODE,
                ansi: false,
            },
        ],
        None => seq![
            LoggingStep::StartFilterReload { default_filter: &config.default_filter },
            LoggingStep::OpenSyslog,
        ],
    }
}

/// The steps that set up the subscriber. Nothing is opened where nothing will ever be logged.
pub open spec fn tracing_steps<'a>(
    config: &'a LoggingConfig,
    max_level_hint: Option<LogLevel>,
    stdout_supports_color: bool,
) -> Seq<LoggingStep<'a>> {
    if max_level_hint == Some(LogLevel::Off) {
        seq![]
    } else {
        seq![LoggingStep::InitCrtLogger] + sink_steps(config) + if config.log_to_stdout {
            seq![LoggingStep::OpenConsole { ansi: stdout_supports_color }]
        } else {
            seq![]
        } + seq![LoggingStep::InitRegistry { metrics: true }]
    }
}

/// The most verbose level that the filter in effect enables: that of the environment where it
/// holds valid directives, and otherwise that of the configuration.
pub open spec fn effective_level(environment: Option<Seq<char>>, default_filter: Seq<char>) -> Option<
    LogLevel,
> {
    match environment {
        Some(directives) => match strict_filter_level(directives) {
            Some(level) => level,
            None => lossy_filter_level(default_filter),
        },
        None => lossy_filter_level(default_filter),
    }
}

/// The filter is overridden through the variable that users know.
pub proof fn law_name_of_the_filter_variable()
    ensures
        LOG_FILTER_VARIABLE@ == "MOUNTPOINT_LOG"@,
{
}

/// The level that logging goes by is the one that the chosen filter enables: that of the directives
/// of the environment where they are set and valid, whatever the configuration says, and that
/// of the configuration otherwise, whatever the environment holds.
pub proof fn law_level_is_that_of_the_chosen_filter(
    environment: Option<Seq<char>>,
    default_filter: Seq<char>,
)
    ensures
        environment matches Some(directives) ==> (strict_filter_level(directives) matches Some(
            level,
        ) ==> effective_level(environment, default_filter) == level),
        environment matches Some(directives) ==> (strict_filter_level(directives) is None
            ==> effective_level(environment, default_filter) == lossy_filter_level(default_filter)),
        environment is None ==> effective_level(environment, default_filter) == lossy_filter_level(
            default_filter,
        ),
{
}

/// Nothing is opened exactly where the filter is off: at every other level, and where the filter
/// leaves the level open, the subscriber is set up, and in the same way.
pub proof fn law_only_off_opens_nothing(
    config: &LoggingConfig,
    a: Option<LogLevel>,
    b: Option<LogLevel>,
    color: bool,
)
    ensures
        tracing_steps(config, a, color).len() == 0 <==> a == Some(LogLevel::Off),
        a != Some(LogLevel::Off) && b != Some(LogLevel::Off) ==> tracing_steps(config, a, color)
            == tracing_steps(config, b, color),
{
}

/// A log file is opened only in the log directory, right after that directory was created, along
/// with those above it and with the permissions `rwxr-x---`, which comes right after the file
/// was named. It is opened for appending, with the permissions `rw-r-----`, and only once.
pub proof fn law_log_directory_is_created_before_the_file(
    config: &LoggingConfig,
    level: Option<LogLevel>,
    color: bool,
    i: int,
    j: int,
)
    requires
        0 <= i < tracing_steps(config, level, color).len(),
        tracing_steps(config, level, color)[i] is OpenLogFile,
        0 <= j < tracing_steps(config, level, color).len(),
    ensures
        ({
            let steps = tracing_steps(config, level, color);
            let path = config.log_directory->0;
            &&& config.log_directory is Some
            &&& i >= 2
            &&& steps[i - 2] is NameLogFile
            &&& steps[i - 1] == (LoggingStep::CreateLogDirectory {
                path: &path,
                recursive: true,
                mode: 0o750,
            })
            &&& steps[i] == (LoggingStep::OpenLogFile {
                directory: &path,
                append: true,
                create: true,
                mode: 0o640,
                ansi: false,
            })
            &&& steps[j] is NameLogFile ==> j == i - 2
            &&& steps[j] is CreateLogDirectory ==> j == i - 1
            &&& steps[j] is OpenLogFile ==> j == i
        }),
{
}

/// All that is done to set up the subscriber, in order, for each place that logs can go to.
pub proof fn law_steps_of_the_subscriber(
    config: &LoggingConfig,
    level: Option<LogLevel>,
    color: bool,
)
    requires
        level != Some(LogLevel::Off),
    ensures
        ({
            let steps = tracing_steps(config, level, color);
            let end: int = if config.log_to_stdout {
                steps.len() - 2
            } else {
                steps.len() - 1
            };
            &&& steps[0] is InitCrtLogger
            &&& steps[steps.len() - 1] == (LoggingStep::InitRegistry { metrics: true })
            &&& config.log_to_stdout ==> steps[end] == (LoggingStep::OpenConsole { ansi: color })
            &&& config.log_directory matches Some(path) ==> end == 4 && steps[1] is NameLogFile
                && steps[2] == (LoggingStep::CreateLogDirectory {
                path: &path,
                recursive: true,
                mode: 0o750,
            }) && steps[3] == (LoggingStep::OpenLogFile {
                directory: &path,
                append: true,
                create: true,
                mode: 0o640,
                ansi: false,
            })
            &&& config.log_directory is None ==> end == 3 && steps[1] == (
            LoggingStep::StartFilterReload { default_filter: &config.default_filter }) && steps[2]
                is OpenSyslog
        }),
{
}

/// Four steps add to their errors what was being done, and the others add nothing.
pub proof fn law_errors_say_what_was_being_done<'a>(step: LoggingStep<'a>)
    ensures
        step is InitCrtLogger ==> step.error_context() == Some(
            "failed to initialize CRT logger"@,
        ),
        step is NameLogFile ==> step.error_context() == Some("couldn't format log file name"@),
        step is CreateLogDirectory ==> step.error_context() == Some(
            "failed to create log folder"@,
        ),
        step is OpenLogFile ==> step.error_context() == Some("failed to create log file"@),
        step.error_context() is None <==> step is StartFilterReload || step is OpenSyslog || step
            is OpenConsole || step is InitRegistry || step is InstallPanicHook,
{
}

/// Where the filter enables nothing, nothing is opened and no subscriber is installed. The panic
/// hook alone is.
pub proof fn law_nothing_is_opened_when_off(config: &LoggingConfig, color: bool)
    ensures
        tracing_steps(config, Some(LogLevel::Off), color).push(LoggingStep::InstallPanicHook) == seq![
            LoggingStep::InstallPanicHook,
        ],
{
}

/// Where the filter enables anything, the CRT's messages are routed first, and the subscriber is
/// installed last, once, with the layer for metrics.
pub proof fn law_subscriber_is_installed_last(
    config: &LoggingConfig,
    level: Option<LogLevel>,
    color: bool,
)
    requires
        level != Some(LogLevel::Off),
    ensures
        tracing_steps(config, level, color).first() is InitCrtLogger,
        tracing_steps(config, level, color).last() == (LoggingStep::InitRegistry { metrics: true }),
        forall|i: int|
            0 <= i < tracing_steps(config, level, color).len() - 1 ==> !(#[trigger] tracing_steps(
                config,
                level,
                color,
            )[i] is InitRegistry),
{
}

/// Logs go to a file where a log directory is given, and to syslog, whose verbosity a signal can
/// then change, where none is.
pub proof fn law_logs_go_to_a_file_or_to_syslog(
    config: &LoggingConfig,
    level: Option<LogLevel>,
    color: bool,
)
    requires
        level != Some(LogLevel::Off),
    ensures
        ({
            let steps = tracing_steps(config, level, color);
            &&& config.log_directory matches Some(path) ==> {
                &&& steps.contains(LoggingStep::OpenLogFile {
                directory: &path,
                append: true,
                create: true,
                mode: LOG_FILE_MODE,
                ansi: false,
            })
                &&& forall|i: int|
                    0 <= i < steps.len() ==> !(#[trigger] steps[i] is OpenSyslog)
                        && !(steps[i] is StartFilterReload)
            }
            &&& config.log_directory is None ==> {
                &&& steps.contains(LoggingStep::OpenSyslog)
                &&& steps.contains(
                    LoggingStep::StartFilterReload { default_filter: &config.default_filter },
                )
                &&& forall|i: int|
                    0 <= i < steps.len() ==> !(#[trigger] steps[i] is OpenLogFile)
                        && !(steps[i] is CreateLogDirectory) && !(steps[i] is NameLogFile)
            }
        }),
{
    let steps = tracing_steps(config, level, color);
    match &config.log_directory {
        Some(path) => {
            assert(steps[3] == (LoggingStep::OpenLogFile {
                directory: path,
                append: true,
                create: true,
                mode: LOG_FILE_MODE,
                ansi: false,
            }));
        },
        None => {
            assert(steps[1] == (LoggingStep::StartFilterReload {
                default_filter: &config.default_filter,
            }));
            assert(steps[2] == LoggingStep::OpenSyslog);
        },
    }
}

/// Logs are duplicated to stdout exactly where that is asked for, in colour exactly where stdout
/// supports it, and that changes nothing about where else they go.
pub proof fn law_stdout_is_in_addition(
    config: &LoggingConfig,
    other: &LoggingConfig,
    level: Option<LogLevel>,
    color: bool,
)
    requires
        level != Some(LogLevel::Off),
        config.log_directory == other.log_directory,
        config.default_filter == other.default_filter,
        config.log_to_stdout,
        !other.log_to_stdout,
    ensures
        ({
            let with = tracing_steps(config, level, color);
            let without = tracing_steps(other, level, color);
            &&& with == without.drop_last().push(LoggingStep::OpenConsole { ansi: color }).push(without.last())
            &&& forall|i: int| 0 <= i < without.len() ==> !(#[trigger] without[i] is OpenConsole)
        }),
{
    let with = tracing_steps(config, level, color);
    let without = tracing_steps(other, level, color);
    assert(sink_steps(config) == sink_steps(other));
    assert(with =~= without.drop_last().push(LoggingStep::OpenConsole { ansi: color }).push(without.last()));
}

/// The panic hook is installed exactly where none of the steps before it, which set up the
/// subscriber, has ended the setup.
pub proof fn law_panic_hook_comes_after_the_subscriber(
    config: &LoggingConfig,
    level: Option<LogLevel>,
    color: bool,
    failed: Seq<bool>,
)
    requires
        failed.len() == tracing_steps(config, level, color).len() + 1,
    ensures
        ({
            let subscriber = tracing_steps(config, level, color);
            let steps = subscriber.push(LoggingStep::InstallPanicHook);
            steps_taken(steps, failed) == steps.len() <==> setup_error(
                subscriber,
                failed.drop_last(),
            ) is None
        }),
{
    let subscriber = tracing_steps(config, level, color);
    let steps = subscriber.push(LoggingStep::InstallPanicHook);
    let before = failed.drop_last();
    law_first_failure_ends_setup(subscriber, before);
    law_first_failure_ends_setup(steps, failed);
    assert(forall|i: int| 0 <= i < before.len() ==> #[trigger] before[i] == failed[i]);
    if setup_error(subscriber, before) is Some {
        let i = steps_taken(subscriber, before) - 1;
        assert(before[i] && steps[i] == subscriber[i]);
        assert(failed[i]);
    }
    if setup_error(steps, failed) is Some {
        let last = steps_taken(steps, failed) - 1;
        if last < subscriber.len() {
            assert(before[last] == failed[last]);
            assert(subscriber[last] == steps[last]);
        }
    }
}

/// Directories and files that are created for logs are not accessible by other users.
pub proof fn law_logs_are_private(
    config: &LoggingConfig,
    level: Option<LogLevel>,
    color: bool,
    i: int,
)
    requires
        0 <= i < tracing_steps(config, level, color).len(),
    ensures
        tracing_steps(config, level, color)[i] matches LoggingStep::CreateLogDirectory { mode, .. }
            ==> mode & 0o007 == 0,
        tracing_steps(config, level, color)[i] matches LoggingStep::OpenLogFile { mode, .. } ==> mode
            & 0o007 == 0,
{
    assert(0o750u32 & 0o007 == 0) by (bit_vector);
    assert(0o640u32 & 0o007 == 0) by (bit_vector);
}

/// The steps that set up the subscriber under a filter that enables `max_level_hint` at most.
pub fn subscriber_steps<'a>(
    config: &'a LoggingConfig,
    max_level_hint: Option<LogLevel>,
    stdout_supports_color: bool,
) -> (r: Vec<LoggingStep<'a>>)
    ensures
        r@ == tracing_steps(config, max_level_hint, stdout_supports_color),
        r@.len() == 0 <==> max_level_hint == Some(LogLevel::Off),
{
    let mut steps: Vec<LoggingStep<'a>> = Vec::new();
    if let Some(LogLevel::Off) = max_level_hint {
        return steps;
    }
    steps.push(LoggingStep::InitCrtLogger);
    match &config.log_directory {
        Some(path) => {
            steps.push(LoggingStep::NameLogFile);
            steps.push(LoggingStep::CreateLogDirectory { path, recursive: true, mode: LOG_DIRECTORY_MODE });
            steps.push(LoggingStep::OpenLogFile {
                directory: path,
                append: true,
                create: true,
                mode: LOG_FILE_MODE,
                ansi: false,
            });
        },
        None => {
            steps.push(LoggingStep::StartFilterReload { default_filter: &config.default_filter });
            steps.push(LoggingStep::OpenSyslog);
        },
    }
    if config.log_to_stdout {
        steps.push(LoggingStep::OpenConsole { ansi: stdout_supports_color });
    }
    steps.push(LoggingStep::InitRegistry { metrics: true });
    steps
}

/// Whether `choice` is the filter that `environment` and `config` give: the directives of the
/// environment where they are set and valid, and otherwise those of the configuration, with
/// the level that they enable.
pub open spec fn is_effective_filter(
    choice: FilterChoice,
    config: &LoggingConfig,
    environment: Option<&str>,
) -> bool {
    &&& choice.from_environment <==> environment is Some && strict_filter_level(environment->0@)
        is Some
    &&& choice.directives@ == (if choice.from_environment {
        environment->0@
    } else {
        config.default_filter@
    })
    &&& choice.max_level_hint == effective_level(
        optional_text(environment),
        config.default_filter@,
    )
}

/// The filter that logging starts with is that of the environment, with its directives and the
/// level that they enable, exactly where it holds valid ones. Otherwise it is that of the
/// configuration. Nothing but the panic hook is set up exactly where that level is off.
pub proof fn law_filter_in_effect(
    choice: FilterChoice,
    config: &LoggingConfig,
    environment: Option<&str>,
    color: bool,
)
    requires
        is_effective_filter(choice, config, environment),
    ensures
        environment matches Some(text) ==> (strict_filter_level(text@) matches Some(level) ==> {
            &&& choice.from_environment
            &&& choice.directives@ == text@
            &&& choice.max_level_hint == level
            &&& tracing_steps(
                config,
                effective_level(optional_text(environment), config.default_filter@),
                color,
            ).len() == 0 <==> level == Some(LogLevel::Off)
        }),
        environment is None || strict_filter_level(environment->0@) is None ==> {
            &&& !choice.from_environment
            &&& choice.directives@ == config.default_filter@
            &&& choice.max_level_hint == lossy_filter_level(config.default_filter@)
            &&& tracing_steps(
                config,
                effective_level(optional_text(environment), config.default_filter@),
                color,
            ).len() == 0 <==> lossy_filter_level(config.default_filter@) == Some(LogLevel::Off)
        },
{
}

/// Works out the steps that set up the subscriber, and the filter that it starts with.
/// `environment` is what the environment variable holds that overrides the default filter.
pub fn init_tracing_subscriber<'a>(
    config: &'a LoggingConfig,
    environment: Option<&str>,
    stdout_supports_color: bool,
) -> (r: (FilterChoice, Vec<LoggingStep<'a>>))
    requires
        safe_to_choose(optional_text(environment), config.default_filter@),
    ensures
        is_effective_filter(r.0, config, environment),
        r.1@ == tracing_steps(
            config,
            effective_level(optional_text(environment), config.default_filter@),
            stdout_supports_color,
        ),
        r.0.from_environment <==> environment is Some && strict_filter_level(environment->0@)
            is Some,
        r.0.from_environment ==> {
            &&& r.0.directives@ == environment->0@
            &&& Some(r.0.max_level_hint) == strict_filter_level(environment->0@)
        },
        !r.0.from_environment ==> {
            &&& r.0.directives@ == config.default_filter@
            &&& r.0.max_level_hint == lossy_filter_level(config.default_filter@)
        },
        r.1@.len() == 0 <==> r.0.max_level_hint == Some(LogLevel::Off),
{
    let choice = create_env_filter(environment, config.default_filter.as_str());
    let steps = subscriber_steps(config, choice.max_level_hint, stdout_supports_color);
    (choice, steps)
}

/// The steps that set up logging, from those that set up the subscriber: the last installs a panic
/// hook.
pub fn with_panic_hook<'a>(steps: Vec<LoggingStep<'a>>) -> (r: Vec<LoggingStep<'a>>)
    ensures
        r@ == steps@.push(LoggingStep::InstallPanicHook),
{
    let mut all = steps;
    all.push(LoggingStep::InstallPanicHook);
    all
}

/// Works out the steps that set up logging, and the filter that it starts with: those that set up
/// the subscriber, and then one that installs a panic hook.
pub fn init_logging<'a>(
    config: &'a LoggingConfig,
    environment: Option<&str>,
    stdout_supports_color: bool,
) -> (r: (FilterChoice, Vec<LoggingStep<'a>>))
    requires
        safe_to_choose(optional_text(environment), config.default_filter@),
    ensures
        is_effective_filter(r.0, config, environment),
        r.1@ == tracing_steps(
            config,
            effective_level(optional_text(environment), config.default_filter@),
            stdout_supports_color,
        ).push(LoggingStep::InstallPanicHook),
        r.0.from_environment <==> environment is Some && strict_filter_level(environment->0@)
            is Some,
        r.0.from_environment ==> {
            &&& r.0.directives@ == environment->0@
            &&& Some(r.0.max_level_hint) == strict_filter_level(environment->0@)
        },
        !r.0.from_environment ==> {
            &&& r.0.directives@ == config.default_filter@
            &&& r.0.max_level_hint == lossy_filter_level(config.default_filter@)
        },
        r.1@.len() == 1 <==> r.0.max_level_hint == Some(LogLevel::Off),
        r.1@.last() is InstallPanicHook,
{
    let (choice, steps) = init_tracing_subscriber(config, environment, stdout_supports_color);
    (choice, with_panic_hook(steps))
}

/// Works out the same as [`init_logging`], for any directives: nothing where it is not certain that
/// none of those that have to be parsed is cut inside a character. What the filter enables then
/// has to come from the caller, as the argument of [`subscriber_steps`].
pub fn try_init_logging<'a>(
    config: &'a LoggingConfig,
    environment: Option<&str>,
    stdout_supports_color: bool,
) -> (r: Option<(FilterChoice, Vec<LoggingStep<'a>>)>)
    ensures
        r is Some <==> safe_to_choose(optional_text(environment), config.default_filter@),
        r matches Some((choice, steps)) ==> {
            &&& is_effective_filter(choice, config, environment)
            &&& steps@ == tracing_steps(
                config,
                effective_level(optional_text(environment), config.default_filter@),
                stdout_supports_color,
            ).push(LoggingStep::InstallPanicHook)
            &&& choice.from_environment <==> environment is Some && strict_filter_level(
                environment->0@,
            ) is Some
            &&& choice.from_environment ==> choice.directives@ == environment->0@ && Some(
                choice.max_level_hint,
            ) == strict_filter_level(environment->0@)
            &&& !choice.from_environment ==> choice.directives@ == config.default_filter@
                && choice.max_level_hint == lossy_filter_level(config.default_filter@)
            &&& steps@.len() == 1 <==> choice.max_level_hint == Some(LogLevel::Off)
            &&& steps@.last() is InstallPanicHook
        },
{
    if is_safe_to_choose(environment, config.default_filter.as_str()) {
        Some(init_logging(config, environment, stdout_supports_color))
    } else {
        None
    }
}

} // verus!
