//! The reporting state of an agent: two countdowns, one per report type,
//! armed and cleared by commands and decremented by ticks.

use vstd::prelude::*;
use vstd::string::StringSliceAdditionalSpecFns;
use vstd::utf8::{decode_utf8, encode_utf8, encode_utf8_decode_utf8, is_char_boundary};
use crate::text::{equals_str, from_chars, push_str, to_chars};

verus! {

/// Number of ticks a report type stays enabled after it was last switched
/// on, unless the state is made with another number.
pub const AUTO_STOP_PUBLISH_COUNT: u32 = 900;

/// The two kinds of report an agent can publish.
#[derive(Clone, Copy, Debug, PartialEq, Eq, Structural)]
pub enum Report {
    Metrics,
    Processes,
}

/// A recognised command: switch one report type on or off.
#[derive(Clone, Copy, Debug, PartialEq, Eq, Structural)]
pub struct Command {
    pub report: Report,
    pub enable: bool,
}

/// What a command did to a countdown, as far as it is worth a log line.
#[derive(Clone, Copy, Debug, PartialEq, Eq, Structural)]
pub enum Transition {
    Enabling,
    ReEnabling,
    Disabling,
}

/// Ticks remaining for each report type; zero means dormant.
#[derive(Clone, Copy, Debug, PartialEq, Eq, Structural)]
pub struct ReportingState {
    pub metrics: u32,
    pub processes: u32,
    /// The value that an "on" command sets a countdown to. It never
    /// changes.
    pub auto_stop: u32,
}

/// The state of the reporting loop as the countdowns show it.
#[derive(Clone, Copy, Debug, PartialEq, Eq, Structural)]
pub enum Mode {
    /// Both countdowns are zero: nothing is published, and the loop listens.
    Idle,
    MetricsActive,
    ProcessesActive,
    BothActive,
}

/// Which reports are due on a tick.
#[derive(Clone, Copy, Debug, PartialEq, Eq, Structural)]
pub struct Due {
    pub metrics: bool,
    pub processes: bool,
}

/// How much a log line matters to its reader.
#[derive(Clone, Copy, Debug, PartialEq, Eq, Structural)]
pub enum Severity {
    /// A change of state as it was asked for.
    Info,
    /// Input that was not understood.
    Warning,
}

/// What became of an incoming command message.
#[derive(Clone, Debug, PartialEq, Eq)]
pub enum Handled {
    /// The topic carried no verb; nothing was done.
    NoVerb,
    /// The topic carried a verb that is not a command; nothing was done.
    Unknown(String),
    /// The command was applied, with the transition it caused, if any.
    Applied(Command, Option<Transition>),
}

/// The verb of the command `c`.
pub open spec fn verb_of(c: Command) -> Seq<char> {
    match (c.report, c.enable) {
        (Report::Metrics, true) => "metrics_on"@,
        (Report::Metrics, false) => "metrics_off"@,
        (Report::Processes, true) => "processes_on"@,
        (Report::Processes, false) => "processes_off"@,
    }
}

/// The command that `verb` names, if it names one.
pub open spec fn command_of(verb: Seq<char>) -> Option<Command> {
    if verb == "metrics_on"@ {
        Some(Command { report: Report::Metrics, enable: true })
    } else if verb == "metrics_off"@ {
        Some(Command { report: Report::Metrics, enable: false })
    } else if verb == "processes_on"@ {
        Some(Command { report: Report::Processes, enable: true })
    } else if verb == "processes_off"@ {
        Some(Command { report: Report::Processes, enable: false })
    } else {
        None
    }
}

/// Index of the byte of a topic at which the verb starts: the place of
/// the wildcard marker that ends the subscribed `prefix`, counted in bytes
/// of UTF-8.
pub open spec fn verb_start(prefix: Seq<char>) -> int {
    encode_utf8(prefix).len() - 1
}

/// The verb carried by `topic` under the subscribed `prefix`: the text of
/// the topic from the byte at which the wildcard marker of the prefix
/// stands, provided the topic is strictly longer than the prefix. Lengths
/// and places count bytes of UTF-8. There is no verb where the prefix is
/// empty, nor where that byte of the topic stands inside a character.
pub open spec fn topic_verb(prefix: Seq<char>, topic: Seq<char>) -> Option<Seq<char>> {
    let bytes = encode_utf8(topic);
    if bytes.len() > encode_utf8(prefix).len() && verb_start(prefix) >= 0 && is_char_boundary(
        bytes,
        verb_start(prefix),
    ) {
        Some(decode_utf8(bytes.skip(verb_start(prefix))))
    } else {
        None
    }
}

impl ReportingState {
    /// The countdown of report type `r`.
    pub open spec fn counter(self, r: Report) -> u32 {
        match r {
            Report::Metrics => self.metrics,
            Report::Processes => self.processes,
        }
    }

    /// This state with the countdown of `r` set to `v`.
    pub open spec fn with_counter(self, r: Report, v: u32) -> ReportingState {
        match r {
            Report::Metrics => ReportingState { metrics: v, ..self },
            Report::Processes => ReportingState { processes: v, ..self },
        }
    }

    /// The state after command `c`.
    pub open spec fn after_command(self, c: Command) -> ReportingState {
        self.with_counter(
            c.report,
            if c.enable {
                self.auto_stop
            } else {
                0
            },
        )
    }

    /// The transition that command `c` causes in this state.
    pub open spec fn transition(self, c: Command) -> Option<Transition> {
        if c.enable {
            if self.counter(c.report) == 0 {
                Some(Transition::Enabling)
            } else {
                Some(Transition::ReEnabling)
            }
        } else if self.counter(c.report) > 0 {
            Some(Transition::Disabling)
        } else {
            None
        }
    }

    /// The state after one tick.
    pub open spec fn after_tick(self) -> ReportingState {
        ReportingState {
            metrics: if self.metrics > 0 {
                (self.metrics - 1) as u32
            } else {
                0
            },
            processes: if self.processes > 0 {
                (self.processes - 1) as u32
            } else {
                0
            },
            auto_stop: self.auto_stop,
        }
    }

    /// The reports that a tick in this state publishes.
    pub open spec fn due(self) -> Due {
        Due { metrics: self.metrics > 0, processes: self.processes > 0 }
    }

    /// The state of the loop that the countdowns show.
    pub open spec fn mode_of(self) -> Mode {
        if self.metrics > 0 && self.processes > 0 {
            Mode::BothActive
        } else if self.metrics > 0 {
            Mode::MetricsActive
        } else if self.processes > 0 {
            Mode::ProcessesActive
        } else {
            Mode::Idle
        }
    }

    /// The state after a command message on `topic`, received under `prefix`.
    pub open spec fn after_message(self, prefix: Seq<char>, topic: Seq<char>) -> ReportingState {
        match topic_verb(prefix, topic) {
            Some(verb) => match command_of(verb) {
                Some(c) => self.after_command(c),
                None => self,
            },
            None => self,
        }
    }

    /// The state at the start of the reporting loop: both report types
    /// dormant, and "on" good for `AUTO_STOP_PUBLISH_COUNT` ticks.
    pub fn new() -> (s: ReportingState)
        ensures
            s == (ReportingState { metrics: 0, processes: 0, auto_stop: AUTO_STOP_PUBLISH_COUNT }),
    {
        ReportingState { metrics: 0, processes: 0, auto_stop: AUTO_STOP_PUBLISH_COUNT }
    }

    /// The state at the start of a reporting loop in which "on" is good for
    /// `auto_stop` ticks.
    pub fn with_auto_stop(auto_stop: u32) -> (s: ReportingState)
        ensures
            s == (ReportingState { metrics: 0, processes: 0, auto_stop }),
    {
        ReportingState { metrics: 0, processes: 0, auto_stop }
    }

    /// The state of the loop: which report types are active.
    pub fn mode(&self) -> (m: Mode)
        ensures
            m == self.mode_of(),
    {
        if self.metrics > 0 && self.processes > 0 {
            Mode::BothActive
        } else if self.metrics > 0 {
            Mode::MetricsActive
        } else if self.processes > 0 {
            Mode::ProcessesActive
        } else {
            Mode::Idle
        }
    }

    /// Applies command `c`: "on" re-arms the countdown to its full value
    /// whatever it was, "off" clears it.
    pub fn apply(&mut self, c: Command) -> (t: Option<Transition>)
        ensures
            *final(self) == old(self).after_command(c),
            t == old(self).transition(c),
    {
        let current: u32 = match c.report {
            Report::Metrics => self.metrics,
            Report::Processes => self.processes,
        };
        let next: u32 = if c.enable {
            self.auto_stop
        } else {
            0
        };
        match c.report {
            Report::Metrics => {
                self.metrics = next;
            },
            Report::Processes => {
                self.processes = next;
            },
        }
        if c.enable {
            if current == 0 {
                Some(Transition::Enabling)
            } else {
                Some(Transition::ReEnabling)
            }
        } else if current > 0 {
            Some(Transition::Disabling)
        } else {
            None
        }
    }

    /// One tick: every positive countdown loses one, and its report is due.
    pub fn tick(&mut self) -> (d: Due)
        ensures
            *final(self) == old(self).after_tick(),
            d == old(self).due(),
    {
        let d = Due { metrics: self.metrics > 0, processes: self.processes > 0 };
        if self.metrics > 0 {
            self.metrics = self.metrics - 1;
        }
        if self.processes > 0 {
            self.processes = self.processes - 1;
        }
        d
    }
}

impl Command {
    /// The command that `verb` names, if it names one.
    pub fn parse(verb: &[char]) -> (c: Option<Command>)
        ensures
            c == command_of(verb@),
    {
        if equals_str(verb, "metrics_on") {
            Some(Command { report: Report::Metrics, enable: true })
        } else if equals_str(verb, "metrics_off") {
            Some(Command { report: Report::Metrics, enable: false })
        } else if equals_str(verb, "processes_on") {
            Some(Command { report: Report::Processes, enable: true })
        } else if equals_str(verb, "processes_off") {
            Some(Command { report: Report::Processes, enable: false })
        } else {
            None
        }
    }
}

/// Extracts the verb from the topic of a command message. `key_expr_command`
/// is the subscribed prefix, wildcard marker included. A topic that is not
/// longer than the prefix in bytes has no verb, nor has one in which the
/// verb would start inside a character.
pub fn command_verb(key_expr_command: &str, topic: &str) -> (verb: Option<Vec<char>>)
    ensures
        match verb {
            Some(v) => topic_verb(key_expr_command@, topic@) == Some(v@),
            None => topic_verb(key_expr_command@, topic@) is None,
        },
{
    let prefix_len: usize = key_expr_command.as_bytes().len();
    let topic_len: usize = topic.as_bytes().len();
    if topic_len > prefix_len && prefix_len > 0 && topic.is_char_boundary(prefix_len - 1) {
        let (_, verb) = topic.split_at(prefix_len - 1);
        proof {
            encode_utf8_decode_utf8(verb@);
            assert(encode_utf8(topic@).subrange(prefix_len - 1, topic_len as int) == encode_utf8(
                topic@,
            ).skip(prefix_len - 1));
        }
        Some(to_chars(verb))
    } else {
        None
    }
}

/// Handles one command message: finds the verb in `topic`, and applies the
/// command it names to `state`. A topic without a verb, or with a verb that
/// is no command, leaves the state as it was.
pub fn parse_command(key_expr_command: &str, state: &mut ReportingState, topic: &str) -> (h:
    Handled)
    ensures
        *final(state) == old(state).after_message(key_expr_command@, topic@),
        match h {
            Handled::NoVerb => topic_verb(key_expr_command@, topic@) is None,
            Handled::Unknown(v) => topic_verb(key_expr_command@, topic@) == Some(v@) && command_of(
                v@,
            ) is None,
            Handled::Applied(c, t) => topic_verb(key_expr_command@, topic@) is Some && command_of(
                topic_verb(key_expr_command@, topic@)->0,
            ) == Some(c) && t == old(state).transition(c),
        },
{
    match command_verb(key_expr_command, topic) {
        None => Handled::NoVerb,
        Some(verb) => match Command::parse(verb.as_slice()) {
            None => Handled::Unknown(from_chars(verb.as_slice())),
            Some(c) => {
                let t = state.apply(c);
                Handled::Applied(c, t)
            },
        },
    }
}

/// One thing the reporting loop waits for.
#[derive(Clone, Debug, PartialEq, Eq)]
pub enum Event {
    /// A message arrived on the command subscription, with this topic.
    Message(String),
    /// The interval timer fired.
    Tick,
}

/// What the reporting loop has to do after an event.
#[derive(Clone, Debug, PartialEq, Eq)]
pub struct Effect {
    /// For a message, what became of it.
    pub handled: Option<Handled>,
    /// The reports to capture and publish now.
    pub due: Due,
}

/// The name of a report type in log lines.
pub open spec fn report_name(r: Report) -> Seq<char> {
    match r {
        Report::Metrics => "metrics"@,
        Report::Processes => "process listing"@,
    }
}

/// The word that opens the log line of a transition.
pub open spec fn transition_word(t: Transition) -> Seq<char> {
    match t {
        Transition::Enabling => "Enabling "@,
        Transition::ReEnabling => "Re-enabling "@,
        Transition::Disabling => "Disabling "@,
    }
}

impl Handled {
    /// The log line that this outcome is worth, if it is worth one.
    pub open spec fn log_text(self) -> Option<Seq<char>> {
        match self {
            Handled::NoVerb => None,
            Handled::Unknown(verb) => Some("Unknown command '"@ + verb@ + "'."@),
            Handled::Applied(c, Some(t)) => Some(
                transition_word(t) + report_name(c.report) + "."@,
            ),
            Handled::Applied(_, None) => None,
        }
    }

    /// The severity of the log line that this outcome is worth: a
    /// transition is information, an unknown verb a warning.
    pub open spec fn severity_of(self) -> Option<Severity> {
        match self {
            Handled::NoVerb => None,
            Handled::Unknown(_) => Some(Severity::Warning),
            Handled::Applied(_, Some(_)) => Some(Severity::Info),
            Handled::Applied(_, None) => None,
        }
    }

    /// The severity at which the log line for this outcome is written:
    /// information for a transition, a warning for an unknown verb, none
    /// where there is no line.
    pub fn severity(&self) -> (s: Option<Severity>)
        ensures
            s == self.severity_of(),
            s is Some <==> self.log_text() is Some,
    {
        match self {
            Handled::NoVerb => None,
            Handled::Unknown(_) => Some(Severity::Warning),
            Handled::Applied(_, Some(_)) => Some(Severity::Info),
            Handled::Applied(_, None) => None,
        }
    }

    /// The log line for this outcome: one line for a transition, one for an
    /// unknown verb, none otherwise.
    pub fn log_line(&self) -> (line: Option<String>)
        ensures
            match line {
                Some(l) => self.log_text() == Some(l@),
                None => self.log_text() is None,
            },
    {
        match self {
            Handled::NoVerb => None,
            Handled::Unknown(verb) => {
                let mut out: Vec<char> = Vec::new();
                push_str(&mut out, "Unknown command '");
                push_str(&mut out, verb.as_str());
                push_str(&mut out, "'.");
                assert(out@ == "Unknown command '"@ + verb@ + "'."@);
                Some(from_chars(out.as_slice()))
            },
            Handled::Applied(c, Some(t)) => {
                let mut out: Vec<char> = Vec::new();
                match t {
                    Transition::Enabling => push_str(&mut out, "Enabling "),
                    Transition::ReEnabling => push_str(&mut out, "Re-enabling "),
                    Transition::Disabling => push_str(&mut out, "Disabling "),
                }
                match c.report {
                    Report::Metrics => push_str(&mut out, "metrics"),
                    Report::Processes => push_str(&mut out, "process listing"),
                }
                push_str(&mut out, ".");
                assert(out@ == transition_word(*t) + report_name(c.report) + "."@);
                Some(from_chars(out.as_slice()))
            },
            Handled::Applied(_, None) => None,
        }
    }
}

impl Due {
    /// Nothing to publish.
    pub open spec fn nothing() -> Due {
        Due { metrics: false, processes: false }
    }

    /// Whether the report of type `r` is due.
    pub open spec fn includes(self, r: Report) -> bool {
        match r {
            Report::Metrics => self.metrics,
            Report::Processes => self.processes,
        }
    }
}

impl ReportingState {
    /// The state after `event`, with `prefix` the command subscription.
    pub open spec fn after_event(self, prefix: Seq<char>, event: Event) -> ReportingState {
        match event {
            Event::Message(topic) => self.after_message(prefix, topic@),
            Event::Tick => self.after_tick(),
        }
    }

    /// The reports that `event` makes due in this state: a message none,
    /// a tick those with a positive countdown.
    pub open spec fn due_on(self, event: Event) -> Due {
        match event {
            Event::Message(_) => Due::nothing(),
            Event::Tick => self.due(),
        }
    }

    /// The state after the events of `trace`, in order.
    pub open spec fn after_trace(self, prefix: Seq<char>, trace: Seq<Event>) -> ReportingState
        decreases trace.len(),
    {
        if trace.len() == 0 {
            self
        } else {
            self.after_trace(prefix, trace.drop_last()).after_event(prefix, trace.last())
        }
    }

    /// How often the report of type `r` is published over `trace`.
    pub open spec fn publishes(self, prefix: Seq<char>, trace: Seq<Event>, r: Report) -> nat
        decreases trace.len(),
    {
        if trace.len() == 0 {
            0
        } else {
            let before = self.after_trace(prefix, trace.drop_last());
            self.publishes(prefix, trace.drop_last(), r) + if before.due_on(
                trace.last(),
            ).includes(r) {
                1nat
            } else {
                0nat
            }
        }
    }

    /// The state after the commands of `cmds`, in order.
    pub open spec fn after_commands(self, cmds: Seq<Command>) -> ReportingState
        decreases cmds.len(),
    {
        if cmds.len() == 0 {
            self
        } else {
            self.after_commands(cmds.drop_last()).after_command(cmds.last())
        }
    }
}

/// One iteration of the reporting loop: consumes one event, updates `state`
/// and says what is to be logged and published. One event has its whole
/// effect before the next is looked at.
pub fn step(key_expr_command: &str, state: &mut ReportingState, event: &Event) -> (e: Effect)
    ensures
        *final(state) == old(state).after_event(key_expr_command@, *event),
        e.due == old(state).due_on(*event),
        match *event {
            Event::Tick => e.handled is None,
            Event::Message(topic) => match e.handled {
                None => false,
                Some(Handled::NoVerb) => topic_verb(key_expr_command@, topic@) is None,
                Some(Handled::Unknown(v)) => topic_verb(key_expr_command@, topic@) == Some(v@)
                    && command_of(v@) is None,
                Some(Handled::Applied(c, t)) => topic_verb(key_expr_command@, topic@) is Some
                    && command_of(topic_verb(key_expr_command@, topic@)->0) == Some(c) && t == old(
                    state,
                ).transition(c),
            },
        },
{
    match event {
        Event::Message(topic) => {
            let h = parse_command(key_expr_command, state, topic.as_str());
            Effect { handled: Some(h), due: Due { metrics: false, processes: false } }
        },
        Event::Tick => {
            let due = state.tick();
            Effect { handled: None, due }
        },
    }
}

/// An "on" command sets its countdown to the full value whatever it was:
/// after each of a run of "on" commands for one report type, the countdown
/// of that type is the full value.
pub proof fn law_on_rearms(s: ReportingState, r: Report, cmds: Seq<Command>, k: int)
    requires
        forall|i: int| 0 <= i < cmds.len() ==> cmds[i] == (Command { report: r, enable: true }),
        1 <= k <= cmds.len(),
    ensures
        s.after_commands(cmds.take(k)).counter(r) == s.auto_stop,
    decreases k,
{
    let p = cmds.take(k);
    assert(p.last() == cmds[k - 1]);
    lemma_commands_keep_auto_stop(s, p.drop_last());
}

/// Commands leave the value that "on" sets a countdown to as it is.
pub proof fn lemma_commands_keep_auto_stop(s: ReportingState, cmds: Seq<Command>)
    ensures
        s.after_commands(cmds).auto_stop == s.auto_stop,
    decreases cmds.len(),
{
    if cmds.len() > 0 {
        lemma_commands_keep_auto_stop(s, cmds.drop_last());
    }
}

/// An "off" command sets its countdown to zero; on a countdown that is
/// already zero it changes nothing, causes no transition and is worth no
/// log line.
pub proof fn law_off_clears(s: ReportingState, r: Report)
    ensures
        s.after_command(Command { report: r, enable: false }).counter(r) == 0,
        s.counter(r) == 0 ==> s.after_command(Command { report: r, enable: false }) == s,
        s.counter(r) == 0 ==> s.transition(Command { report: r, enable: false }) is None,
        s.counter(r) > 0 ==> s.transition(Command { report: r, enable: false }) == Some(
            Transition::Disabling,
        ),
        Handled::Applied(Command { report: r, enable: false }, None).log_text() is None,
{
}

/// A tick takes one from a positive countdown and leaves a zero countdown
/// at zero; a countdown never grows by a tick.
pub proof fn law_tick_counts_down(s: ReportingState, r: Report)
    ensures
        s.counter(r) > 0 ==> s.after_tick().counter(r) == s.counter(r) - 1,
        s.counter(r) == 0 ==> s.after_tick().counter(r) == 0,
        s.after_tick().counter(r) <= s.counter(r),
{
}

/// The trace of `k` ticks.
pub open spec fn ticks(k: nat) -> Seq<Event> {
    Seq::new(k, |i: int| Event::Tick)
}

/// With no further command, a countdown of `n` makes its report due on
/// exactly the next `n` ticks: over `k` ticks the report is published
/// `min(k, n)` times, and the countdown ends at `n - min(k, n)`.
pub proof fn law_countdown_publishes(s: ReportingState, prefix: Seq<char>, r: Report, k: nat)
    ensures
        s.publishes(prefix, ticks(k), r) == if k <= s.counter(r) {
            k
        } else {
            s.counter(r) as nat
        },
        s.after_trace(prefix, ticks(k)).counter(r) == if k <= s.counter(r) {
            s.counter(r) - k
        } else {
            0
        },
    decreases k,
{
    if k > 0 {
        let shorter = (k - 1) as nat;
        law_countdown_publishes(s, prefix, r, shorter);
        assert(ticks(k).drop_last() == ticks(shorter));
        assert(ticks(k).last() == Event::Tick);
    }
}

/// After one "on" command the report is published on each of the next
/// `auto_stop` ticks and on none after them: a client that forgets to send
/// "off" does not leave the agent reporting for ever.
pub proof fn law_auto_stop(s: ReportingState, prefix: Seq<char>, r: Report, k: nat)
    ensures
        s.after_command(Command { report: r, enable: true }).publishes(prefix, ticks(k), r) == if k
            <= s.auto_stop {
            k
        } else {
            s.auto_stop as nat
        },
{
    law_countdown_publishes(s.after_command(Command { report: r, enable: true }), prefix, r, k);
}

/// The loop publishes exactly what is active: a tick makes a report due
/// where the state of the loop has its type active, and in the idle state
/// none.
pub proof fn law_due_follows_mode(s: ReportingState)
    ensures
        s.due().metrics == (s.mode_of() == Mode::MetricsActive || s.mode_of() == Mode::BothActive),
        s.due().processes == (s.mode_of() == Mode::ProcessesActive || s.mode_of()
            == Mode::BothActive),
        s.mode_of() == Mode::Idle ==> s.due() == Due::nothing() && s.after_tick() == s,
{
}

/// A command for one report type never changes the countdown of the other.
pub proof fn law_flags_independent(s: ReportingState, c: Command, other: Report)
    requires
        other != c.report,
    ensures
        s.after_command(c).counter(other) == s.counter(other),
{
}

/// Every outcome that is worth a log line has a severity, and no other
/// has: a transition is logged as information, an unknown verb as a
/// warning.
pub proof fn law_log_lines_have_severity(h: Handled)
    ensures
        h.log_text() is Some <==> h.severity_of() is Some,
        h is Unknown <==> h.severity_of() == Some(Severity::Warning),
        h matches Handled::Applied(_, Some(_)) <==> h.severity_of() == Some(Severity::Info),
{
}

/// The countdowns change only where the topic carries one of the four
/// verbs: no other message, however long its topic, touches the state.
pub proof fn law_only_commands_change_state(
    s: ReportingState,
    prefix: Seq<char>,
    topic: Seq<char>,
)
    requires
        s.after_message(prefix, topic) != s,
    ensures
        topic_verb(prefix, topic) is Some,
        command_of(topic_verb(prefix, topic)->0) is Some,
        encode_utf8(topic).len() > encode_utf8(prefix).len(),
{
}

/// A message whose verb is no command changes no countdown, publishes
/// nothing, and is worth exactly one log line, a warning that names the
/// verb.
pub proof fn law_unknown_verb_ignored(
    s: ReportingState,
    prefix: Seq<char>,
    topic: String,
    verb: String,
)
    requires
        topic_verb(prefix, topic@) == Some(verb@),
        command_of(verb@) is None,
    ensures
        s.after_event(prefix, Event::Message(topic)) == s,
        s.due_on(Event::Message(topic)) == Due::nothing(),
        Handled::Unknown(verb).log_text() == Some("Unknown command '"@ + verb@ + "'."@),
        Handled::Unknown(verb).severity_of() == Some(Severity::Warning),
{
}

/// Each command has a verb of its own, which names it and no other
/// command.
pub proof fn law_verbs_name_commands(c: Command)
    ensures
        command_of(verb_of(c)) == Some(c),
        verb_of(c).len() >= 2,
{
    reveal_strlit("metrics_on");
    reveal_strlit("metrics_off");
    reveal_strlit("processes_on");
    reveal_strlit("processes_off");
    assert("metrics_on"@.len() != "metrics_off"@.len());
    assert("metrics_on"@[0] != "processes_on"@[0]);
    assert("metrics_on"@[0] != "processes_off"@[0]);
    assert("metrics_off"@[0] != "processes_on"@[0]);
    assert("metrics_off"@[0] != "processes_off"@[0]);
    assert("processes_on"@.len() != "processes_off"@.len());
}

/// A topic that is not strictly longer than the subscribed prefix, in
/// bytes of UTF-8, carries no verb and changes nothing.
pub proof fn law_short_topic_ignored(s: ReportingState, prefix: Seq<char>, topic: Seq<char>)
    requires
        encode_utf8(topic).len() <= encode_utf8(prefix).len(),
    ensures
        topic_verb(prefix, topic) is None,
        s.after_message(prefix, topic) == s,
{
}

} // verus!
