//! The topics of one agent and the state of its reporting loop.

use vstd::prelude::*;
use vstd::utf8::{encode_utf8, encode_utf8_decode_utf8};
use crate::common::{
    BASE_KEY_EXPR,
    COMMAND_KEY_EXPR,
    LIVELINESS_KEY_EXPR,
    MACHINE_KEY_EXPR,
    METRICS_KEY_EXPR,
    PROCESS_LISTING_KEY_EXPR,
};
use crate::number::{decimal, push_decimal};
use crate::platform::Machine;
use crate::reporting::{
    command_of,
    law_verbs_name_commands,
    verb_of,
    AUTO_STOP_PUBLISH_COUNT,
    step,
    topic_verb,
    Command,
    Effect,
    Event,
    Handled,
    ReportingState,
};
use crate::text::{
    from_chars,
    lemma_boundary_between,
    lemma_bytes_at_least_chars,
    lemma_bytes_of_joined,
    push_str,
};

verus! {

/// The segments `a`, `b`, `c`, `d` joined by slashes.
pub open spec fn path4(a: Seq<char>, b: Seq<char>, c: Seq<char>, d: Seq<char>) -> Seq<char> {
    a + seq!['/'] + b + seq!['/'] + c + seq!['/'] + d
}

/// The topic on which the agent with hardware address `mac` in group
/// `grp` publishes its identity.
pub open spec fn machine_topic(grp: Seq<char>, mac: u64) -> Seq<char> {
    path4(BASE_KEY_EXPR@, grp, MACHINE_KEY_EXPR@, decimal(mac as nat))
}

/// The topic of the liveliness token of that agent.
pub open spec fn liveliness_topic(grp: Seq<char>, mac: u64) -> Seq<char> {
    path4(BASE_KEY_EXPR@, grp, LIVELINESS_KEY_EXPR@, decimal(mac as nat))
}

/// What the command, metrics and processes topics of one incarnation of
/// an agent begin with: namespace, group, hardware address and boot
/// session, and a slash after each.
pub open spec fn incarnation_base(grp: Seq<char>, mac: u64, bootid: Seq<char>) -> Seq<char> {
    path4(BASE_KEY_EXPR@, grp, decimal(mac as nat), bootid) + seq!['/']
}

/// The topic of the command named by `verb`.
pub open spec fn command_topic(grp: Seq<char>, mac: u64, bootid: Seq<char>, verb: Seq<char>)
    -> Seq<char> {
    incarnation_base(grp, mac, bootid) + COMMAND_KEY_EXPR@ + seq!['/'] + verb
}

/// The subscription that matches every command topic: the wildcard marker
/// stands in the place of the verb.
pub open spec fn command_subscription(grp: Seq<char>, mac: u64, bootid: Seq<char>) -> Seq<char> {
    command_topic(grp, mac, bootid, seq!['*'])
}

/// The topic on which metrics are published.
pub open spec fn metrics_topic(grp: Seq<char>, mac: u64, bootid: Seq<char>) -> Seq<char> {
    incarnation_base(grp, mac, bootid) + METRICS_KEY_EXPR@
}

/// The topic on which process listings are published.
pub open spec fn processes_topic(grp: Seq<char>, mac: u64, bootid: Seq<char>) -> Seq<char> {
    incarnation_base(grp, mac, bootid) + PROCESS_LISTING_KEY_EXPR@
}

/// The topics of one agent incarnation, and the state of its reporting
/// loop.
pub struct Communicator {
    pub state: ReportingState,
    pub key_expr_machine: String,
    pub key_expr_liveliness: String,
    pub key_expr_command: String,
    pub key_expr_metrics: String,
    pub key_expr_processes: String,
}

/// Appends the start of an incarnation's topics to `out`.
fn push_base(out: &mut Vec<char>, grp: &str, mac: u64, bootid: &str)
    ensures
        final(out)@ == old(out)@ + incarnation_base(grp@, mac, bootid@),
{
    push_str(out, BASE_KEY_EXPR);
    out.push('/');
    push_str(out, grp);
    out.push('/');
    push_decimal(out, mac);
    out.push('/');
    push_str(out, bootid);
    out.push('/');
    assert(out@ == old(out)@ + incarnation_base(grp@, mac, bootid@));
}

/// The topic that ends with `kind` and the hardware address.
fn station_topic(grp: &str, kind: &str, mac: u64) -> (topic: String)
    ensures
        topic@ == path4(BASE_KEY_EXPR@, grp@, kind@, decimal(mac as nat)),
{
    let mut out: Vec<char> = Vec::new();
    push_str(&mut out, BASE_KEY_EXPR);
    out.push('/');
    push_str(&mut out, grp);
    out.push('/');
    push_str(&mut out, kind);
    out.push('/');
    push_decimal(&mut out, mac);
    assert(out@ == path4(BASE_KEY_EXPR@, grp@, kind@, decimal(mac as nat)));
    from_chars(out.as_slice())
}

impl Communicator {
    /// Whether these are the topics of the incarnation `(mac, bootid)` in
    /// group `grp`. All five name the same hardware address, and the three
    /// of the reporting loop the same boot session.
    pub open spec fn serves(&self, grp: Seq<char>, mac: u64, bootid: Seq<char>) -> bool {
        &&& self.key_expr_machine@ == machine_topic(grp, mac)
        &&& self.key_expr_liveliness@ == liveliness_topic(grp, mac)
        &&& self.key_expr_command@ == command_subscription(grp, mac, bootid)
        &&& self.key_expr_metrics@ == metrics_topic(grp, mac, bootid)
        &&& self.key_expr_processes@ == processes_topic(grp, mac, bootid)
    }

    /// The communicator of `machine` in group `grp`, with both report
    /// types dormant.
    pub fn new<M: Machine>(grp: &str, machine: &M) -> (c: Communicator)
        ensures
            c.serves(grp@, machine.mac_number(), machine.bootid_text()),
            c.state == (ReportingState {
                metrics: 0,
                processes: 0,
                auto_stop: AUTO_STOP_PUBLISH_COUNT,
            }),
    {
        let mac = machine.mac();
        let bootid = machine.bootid();
        let mut command: Vec<char> = Vec::new();
        push_base(&mut command, grp, mac, bootid);
        push_str(&mut command, COMMAND_KEY_EXPR);
        command.push('/');
        command.push('*');
        assert(command@ == command_subscription(grp@, mac, bootid@));
        let mut metrics: Vec<char> = Vec::new();
        push_base(&mut metrics, grp, mac, bootid);
        push_str(&mut metrics, METRICS_KEY_EXPR);
        let mut processes: Vec<char> = Vec::new();
        push_base(&mut processes, grp, mac, bootid);
        push_str(&mut processes, PROCESS_LISTING_KEY_EXPR);
        Communicator {
            state: ReportingState::new(),
            key_expr_machine: station_topic(grp, MACHINE_KEY_EXPR, mac),
            key_expr_liveliness: station_topic(grp, LIVELINESS_KEY_EXPR, mac),
            key_expr_command: from_chars(command.as_slice()),
            key_expr_metrics: from_chars(metrics.as_slice()),
            key_expr_processes: from_chars(processes.as_slice()),
        }
    }

    /// One iteration of the reporting loop: takes one event, updates the
    /// countdowns and says what to log and what to publish.
    pub fn step(&mut self, event: &Event) -> (e: Effect)
        ensures
            final(self).state == old(self).state.after_event(old(self).key_expr_command@, *event),
            e.due == old(self).state.due_on(*event),
            final(self).key_expr_machine == old(self).key_expr_machine,
            final(self).key_expr_liveliness == old(self).key_expr_liveliness,
            final(self).key_expr_command == old(self).key_expr_command,
            final(self).key_expr_metrics == old(self).key_expr_metrics,
            final(self).key_expr_processes == old(self).key_expr_processes,
            match *event {
                Event::Tick => e.handled is None,
                Event::Message(topic) => match e.handled {
                    None => false,
                    Some(Handled::NoVerb) => topic_verb(old(self).key_expr_command@, topic@)
                        is None,
                    Some(Handled::Unknown(v)) => topic_verb(old(self).key_expr_command@, topic@)
                        == Some(v@) && command_of(v@) is None,
                    Some(Handled::Applied(c, t)) => topic_verb(
                        old(self).key_expr_command@,
                        topic@,
                    ) is Some && command_of(topic_verb(old(self).key_expr_command@, topic@)->0)
                        == Some(c) && t == old(self).state.transition(c),
                },
            },
    {
        let mut state = self.state;
        let e = step(self.key_expr_command.as_str(), &mut state, event);
        self.state = state;
        e
    }
}

/// Under the subscription of an incarnation, the topic of a command
/// carries the command's verb: what a client sends to the command topic of
/// `verb` reaches the reporting loop as `verb`. This holds for every verb
/// of two bytes or more.
pub proof fn law_command_topic_carries_verb(
    grp: Seq<char>,
    mac: u64,
    bootid: Seq<char>,
    verb: Seq<char>,
)
    requires
        encode_utf8(verb).len() >= 2,
    ensures
        topic_verb(command_subscription(grp, mac, bootid), command_topic(grp, mac, bootid, verb))
            == Some(verb),
{
    let base = incarnation_base(grp, mac, bootid) + COMMAND_KEY_EXPR@ + seq!['/'];
    let prefix = command_subscription(grp, mac, bootid);
    let topic = command_topic(grp, mac, bootid, verb);
    let marker = seq!['*'];
    assert(prefix == base + marker);
    assert(topic == base + verb);
    lemma_bytes_of_joined(base, marker);
    lemma_bytes_of_joined(base, verb);
    lemma_boundary_between(base, verb);
    assert(encode_utf8(marker).len() == 1) by {
        reveal_with_fuel(encode_utf8, 2);
        assert(marker.drop_first() =~= Seq::<char>::empty());
    }
    assert(encode_utf8(topic).skip(encode_utf8(base).len() as int) =~= encode_utf8(verb));
    encode_utf8_decode_utf8(verb);
}

/// What a client sends to the topic of a command's verb, the reporting
/// loop of that incarnation takes as that command.
pub proof fn law_command_reaches_loop(
    s: ReportingState,
    grp: Seq<char>,
    mac: u64,
    bootid: Seq<char>,
    c: Command,
)
    ensures
        s.after_message(
            command_subscription(grp, mac, bootid),
            command_topic(grp, mac, bootid, verb_of(c)),
        ) == s.after_command(c),
{
    law_verbs_name_commands(c);
    lemma_bytes_at_least_chars(verb_of(c));
    law_command_topic_carries_verb(grp, mac, bootid, verb_of(c));
}

/// A new boot gives new topics: the command, metrics and processes
/// topics of two boot sessions of one machine differ, so that what is
/// addressed to one incarnation does not reach the other.
pub proof fn law_boot_gives_new_topics(grp: Seq<char>, mac: u64, boot1: Seq<char>, boot2: Seq<char>)
    requires
        boot1 != boot2,
    ensures
        command_subscription(grp, mac, boot1) != command_subscription(grp, mac, boot2),
        metrics_topic(grp, mac, boot1) != metrics_topic(grp, mac, boot2),
        processes_topic(grp, mac, boot1) != processes_topic(grp, mac, boot2),
{
    let head = BASE_KEY_EXPR@ + seq!['/'] + grp + seq!['/'] + decimal(mac as nat) + seq!['/'];
    let command = seq!['/'] + COMMAND_KEY_EXPR@ + seq!['/'] + seq!['*'];
    let metrics = seq!['/'] + METRICS_KEY_EXPR@;
    let processes = seq!['/'] + PROCESS_LISTING_KEY_EXPR@;
    assert(command_subscription(grp, mac, boot1) =~= head + boot1 + command);
    assert(command_subscription(grp, mac, boot2) =~= head + boot2 + command);
    assert(metrics_topic(grp, mac, boot1) =~= head + boot1 + metrics);
    assert(metrics_topic(grp, mac, boot2) =~= head + boot2 + metrics);
    assert(processes_topic(grp, mac, boot1) =~= head + boot1 + processes);
    assert(processes_topic(grp, mac, boot2) =~= head + boot2 + processes);
    lemma_middle_differs(head, boot1, boot2, command);
    lemma_middle_differs(head, boot1, boot2, metrics);
    lemma_middle_differs(head, boot1, boot2, processes);
}

/// Texts with the same start and the same end differ where what stands
/// between differs.
proof fn lemma_middle_differs(head: Seq<char>, a: Seq<char>, b: Seq<char>, tail: Seq<char>)
    requires
        a != b,
    ensures
        head + a + tail != head + b + tail,
{
    if head + a + tail == head + b + tail {
        assert((head + a + tail).len() == (head + b + tail).len());
        assert(a.len() == b.len());
        assert((head + a + tail).subrange(head.len() as int, (head.len() + a.len()) as int) =~= a);
        assert((head + b + tail).subrange(head.len() as int, (head.len() + b.len()) as int) =~= b);
        assert(false);
    }
}

} // verus!
