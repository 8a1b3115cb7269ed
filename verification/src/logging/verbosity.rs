//! How a signal steps through the levels of verbosity.
use super::filter::{create_filter, filter_text, LogLevel};
use vstd::prelude::*;

verus! {

/// The levels of verbosity, in the order in which they follow each other.
#[derive(Debug, Clone, Copy, PartialEq, Eq, Structural)]
pub enum Verbosity {
    /// What the configuration asks for.
    Default,
    Debug,
    /// Debug messages, those of the CRT included.
    DebugCrt,
    Trace,
    /// Trace messages, those of the CRT included.
    TraceCrt,
}

/// The verbosity after so many steps from the default.
pub open spec fn verbosity_at(count: int) -> Verbosity {
    let step = count % 5;
    if step == 0 {
        Verbosity::Default
    } else if step == 1 {
        Verbosity::Debug
    } else if step == 2 {
        Verbosity::DebugCrt
    } else if step == 3 {
        Verbosity::Trace
    } else {
        Verbosity::TraceCrt
    }
}

/// The counter after one more signal: eight bits that start over.
pub open spec fn next_count(count: u8) -> u8 {
    if count == u8::MAX {
        0
    } else {
        (count + 1) as u8
    }
}

/// Five signals step through every verbosity once and end where they began, as long as the
/// counter does not start over on the way.
pub proof fn law_five_signals_are_a_full_cycle(count: u8)
    requires
        count + 5 <= u8::MAX,
    ensures
        ({
            let first = next_count(count);
            let second = next_count(first);
            let third = next_count(second);
            let fourth = next_count(third);
            let fifth = next_count(fourth);
            let seen = set![
                verbosity_at(first as int),
                verbosity_at(second as int),
                verbosity_at(third as int),
                verbosity_at(fourth as int),
                verbosity_at(fifth as int),
            ];
            &&& verbosity_at(fifth as int) == verbosity_at(count as int)
            &&& forall|v: Verbosity| #[trigger] seen.contains(v)
        }),
{
}

/// The first signal after the start brings debug messages, and further ones those of the CRT,
/// then trace messages, then those of the CRT, then the default again.
pub proof fn law_order_of_verbosities(rounds: int)
    ensures
        verbosity_at(5 * rounds) == Verbosity::Default,
        verbosity_at(5 * rounds + 1) == Verbosity::Debug,
        verbosity_at(5 * rounds + 2) == Verbosity::DebugCrt,
        verbosity_at(5 * rounds + 3) == Verbosity::Trace,
        verbosity_at(5 * rounds + 4) == Verbosity::TraceCrt,
{
}

/// The counter counts signals, and starts over after 255.
pub proof fn law_signals_are_counted(count: u8)
    ensures
        count < 255 ==> next_count(count) == count + 1,
        count == 255 ==> next_count(count) == 0,
{
}

/// The default verbosity has exactly the directives of the configuration, whatever the target of
/// the CRT's messages is. The others do not depend on the configuration: they set the level of
/// all messages, and for those with that target the same one or none.
pub proof fn law_filters_of_verbosities(
    default_filter: Seq<char>,
    other_filter: Seq<char>,
    crt_target: Seq<char>,
)
    ensures
        Verbosity::Default.filter(default_filter, crt_target) == default_filter,
        Verbosity::Debug.filter(default_filter, crt_target) == "debug,"@ + crt_target + "=off"@,
        Verbosity::DebugCrt.filter(default_filter, crt_target) == "debug,"@ + crt_target
            + "=debug"@,
        Verbosity::Trace.filter(default_filter, crt_target) == "trace,"@ + crt_target + "=off"@,
        Verbosity::TraceCrt.filter(default_filter, crt_target) == "trace,"@ + crt_target
            + "=trace"@,
        forall|v: Verbosity|
            v != Verbosity::Default ==> #[trigger] v.filter(default_filter, crt_target) == v.filter(
                other_filter,
                crt_target,
            ),
{
    reveal_strlit(",");
    reveal_strlit("=");
    reveal_strlit("debug");
    reveal_strlit("trace");
    reveal_strlit("off");
    reveal_strlit("debug,");
    reveal_strlit("trace,");
    reveal_strlit("=off");
    reveal_strlit("=debug");
    reveal_strlit("=trace");
}

/// What is logged names the verbosity, and the default one with the directives of the
/// configuration, character by character.
pub proof fn law_announcements_of_verbosities(default_filter: Seq<char>)
    ensures
        Verbosity::Default.announcement(default_filter)
            == "Changing log verbosity to default level: "@ + default_filter,
        Verbosity::Debug.announcement(default_filter) == "Changing log verbosity to debug level"@,
        Verbosity::DebugCrt.announcement(default_filter) == Verbosity::Debug.announcement(
            default_filter,
        ) + " including CRT"@,
        Verbosity::Trace.announcement(default_filter) == "Changing log verbosity to trace level"@,
        Verbosity::TraceCrt.announcement(default_filter) == Verbosity::Trace.announcement(
            default_filter,
        ) + " including CRT"@,
{
    reveal_strlit("Changing log verbosity to debug level");
    reveal_strlit("Changing log verbosity to debug level including CRT");
    reveal_strlit("Changing log verbosity to trace level");
    reveal_strlit("Changing log verbosity to trace level including CRT");
    reveal_strlit(" including CRT");
}

impl Verbosity {
    /// The verbosity after `count` steps from the default.
    pub fn at(count: u8) -> (r: Verbosity)
        ensures
            r == verbosity_at(count as int),
    {
        match count % 5 {
            0 => Verbosity::Default,
            1 => Verbosity::Debug,
            2 => Verbosity::DebugCrt,
            3 => Verbosity::Trace,
            _ => Verbosity::TraceCrt,
        }
    }

    /// The filter directives of a verbosity.
    pub open spec fn filter(self, default_filter: Seq<char>, crt_target: Seq<char>) -> Seq<char> {
        match self {
            Verbosity::Default => default_filter,
            Verbosity::Debug => filter_text(LogLevel::Debug, crt_target, LogLevel::Off),
            Verbosity::DebugCrt => filter_text(LogLevel::Debug, crt_target, LogLevel::Debug),
            Verbosity::Trace => filter_text(LogLevel::Trace, crt_target, LogLevel::Off),
            Verbosity::TraceCrt => filter_text(LogLevel::Trace, crt_target, LogLevel::Trace),
        }
    }

    /// What is logged when a verbosity takes effect.
    pub open spec fn announcement(self, default_filter: Seq<char>) -> Seq<char> {
        match self {
            Verbosity::Default => "Changing log verbosity to default level: "@ + default_filter,
            Verbosity::Debug => "Changing log verbosity to debug level"@,
            Verbosity::DebugCrt => "Changing log verbosity to debug level including CRT"@,
            Verbosity::Trace => "Changing log verbosity to trace level"@,
            Verbosity::TraceCrt => "Changing log verbosity to trace level including CRT"@,
        }
    }

    /// The filter directives of this verbosity.
    pub fn create_filter(self, default_filter: &str, crt_target: &str) -> (r: String)
        ensures
            r@ == self.filter(default_filter@, crt_target@),
    {
        match self {
            Verbosity::Default => default_filter.to_owned(),
            Verbosity::Debug => create_filter(LogLevel::Debug, crt_target, LogLevel::Off),
            Verbosity::DebugCrt => create_filter(LogLevel::Debug, crt_target, LogLevel::Debug),
            Verbosity::Trace => create_filter(LogLevel::Trace, crt_target, LogLevel::Off),
            Verbosity::TraceCrt => create_filter(LogLevel::Trace, crt_target, LogLevel::Trace),
        }
    }

    /// What is to be logged when this verbosity takes effect.
    pub fn announce(self, default_filter: &str) -> (r: String)
        ensures
            r@ == self.announcement(default_filter@),
    {
        match self {
            Verbosity::Default => {
                let mut text = "Changing log verbosity to default level: ".to_owned();
                text.append(default_filter);
                text
            },
            Verbosity::Debug => "Changing log verbosity to debug level".to_owned(),
            Verbosity::DebugCrt => "Changing log verbosity to debug level including CRT".to_owned(),
            Verbosity::Trace => "Changing log verbosity to trace level".to_owned(),
            Verbosity::TraceCrt => "Changing log verbosity to trace level including CRT".to_owned(),
        }
    }
}

/// What to do about a signal.
#[derive(Debug)]
pub enum SignalAction {
    /// Log `announcement`, then put the directives `filter` into effect.
    Reload { announcement: String, filter: String },
    /// Report the signal as unexpected.
    Ignore { signal: i32 },
}

/// Which verbosity is in effect, and the signal that changes it.
#[derive(Debug)]
pub struct VerbosityCycle {
    reload_signal: i32,
    default_filter: String,
    crt_target: String,
    count: u8,
}

impl VerbosityCycle {
    /// The signal that changes the verbosity.
    pub closed spec fn reload_signal(self) -> i32 {
        self.reload_signal
    }

    /// The directives of the default verbosity.
    pub closed spec fn default_filter(self) -> Seq<char> {
        self.default_filter@
    }

    /// The target of the CRT's log messages.
    pub closed spec fn crt_target(self) -> Seq<char> {
        self.crt_target@
    }

    /// How often the signal has come. The counter holds eight bits, and starts over.
    pub closed spec fn count(self) -> u8 {
        self.count
    }

    /// The verbosity that is in effect.
    pub open spec fn verbosity(self) -> Verbosity {
        verbosity_at(self.count() as int)
    }

    /// A cycle at its start, in the default verbosity.
    pub fn new(reload_signal: i32, default_filter: String, crt_target: String) -> (r: Self)
        ensures
            r.reload_signal() == reload_signal,
            r.default_filter() == default_filter@,
            r.crt_target() == crt_target@,
            r.count() == 0,
    {
        VerbosityCycle { reload_signal, default_filter, crt_target, count: 0 }
    }

    /// Handles a signal: the reload signal steps to the next verbosity, any other is ignored.
    pub fn on_signal(&mut self, signal: i32) -> (action: SignalAction)
        ensures
            final(self).reload_signal() == old(self).reload_signal(),
            final(self).default_filter() == old(self).default_filter(),
            final(self).crt_target() == old(self).crt_target(),
            signal == old(self).reload_signal() ==> {
                &&& final(self).count() == next_count(old(self).count())
                &&& action matches SignalAction::Reload { announcement, filter }
                &&& announcement@ == final(self).verbosity().announcement(
                    old(self).default_filter(),
                )
                &&& filter@ == final(self).verbosity().filter(
                    old(self).default_filter(),
                    old(self).crt_target(),
                )
            },
            signal == old(self).reload_signal() ==> {
                let default_filter = old(self).default_filter();
                let crt_target = old(self).crt_target();
                let count = (old(self).count() + 1) % 256;
                &&& final(self).count() == count
                &&& action matches SignalAction::Reload { announcement, filter }
                &&& count % 5 == 0 ==> filter@ == default_filter && announcement@
                    == "Changing log verbosity to default level: "@ + default_filter
                &&& count % 5 == 1 ==> filter@ == "debug,"@ + crt_target + "=off"@
                &&& count % 5 == 2 ==> filter@ == "debug,"@ + crt_target + "=debug"@
                &&& count % 5 == 3 ==> filter@ == "trace,"@ + crt_target + "=off"@
                &&& count % 5 == 4 ==> filter@ == "trace,"@ + crt_target + "=trace"@
            },
            signal != old(self).reload_signal() ==> {
                &&& final(self).count() == old(self).count()
                &&& action == (SignalAction::Ignore { signal })
            },
    {
        if signal != self.reload_signal {
            return SignalAction::Ignore { signal };
        }
        self.count = self.count.wrapping_add(1);
        let verbosity = Verbosity::at(self.count);
        let announcement = verbosity.announce(self.default_filter.as_str());
        let filter = verbosity.create_filter(self.default_filter.as_str(), self.crt_target.as_str());
        proof {
            law_filters_of_verbosities(
                self.default_filter(),
                self.default_filter(),
                self.crt_target(),
            );
        }
        SignalAction::Reload { announcement, filter }
    }
}

} // verus!
