//! What agent and client share: the segments of the topic scheme and the
//! presentation of a machine's identity.

use vstd::prelude::*;
use crate::messages::{Machine, MachineView};
use crate::number::{decimal, push_decimal};
use crate::text::{from_chars, push_str};

verus! {

/// The namespace that every topic begins with.
pub const BASE_KEY_EXPR: &'static str = "pw";

/// The group that agents belong to unless told otherwise.
pub const GROUP_KEY_EXPR: &'static str = "1";

/// The segment of identity topics.
pub const MACHINE_KEY_EXPR: &'static str = "m";

/// The segment of liveliness topics.
pub const LIVELINESS_KEY_EXPR: &'static str = "l";

/// The segment of command topics.
pub const COMMAND_KEY_EXPR: &'static str = "c";

/// The segment of boot session identifiers.
pub const BOOTID_KEY_EXPR: &'static str = "b";

/// The last segment of metrics topics.
pub const METRICS_KEY_EXPR: &'static str = "metrics";

/// The last segment of process listing topics.
pub const PROCESS_LISTING_KEY_EXPR: &'static str = "processes";

/// The largest number of seconds since the epoch that has a calendar date:
/// the last second of the year 262142.
pub const MAX_TIMESTAMP: u64 = 8_210_266_876_799;

/// The date and time in UTC at `seconds` after the epoch, written as year,
/// month and day with hyphens, a space, and hour, minute and second with
/// colons. A year of more than four digits has a plus sign before it.
pub uninterp spec fn utc_date_time(seconds: u64) -> Seq<char>;

/// `chrono::DateTime::<Utc>::from` turns a system time into a date and
/// time in UTC, and `format` writes it by the pattern given. The system
/// time is `seconds` after the epoch; the result depends on `seconds`
/// alone. Outside chrono's range of dates the conversion panics, so such
/// numbers are left out.
#[verifier::external_body]
fn format_utc(seconds: u64) -> (s: String)
    requires
        seconds <= MAX_TIMESTAMP,
    ensures
        s@ == utc_date_time(seconds),
{
    let then = std::time::UNIX_EPOCH + std::time::Duration::from_secs(seconds);
    let datetime = chrono::DateTime::<chrono::Utc>::from(then);
    datetime.format("%Y-%m-%d %H:%M:%S").to_string()
}

/// Writes a time given in seconds since the epoch as date and time in UTC.
pub fn stringify_duration(seconds: u64) -> (s: String)
    requires
        seconds <= MAX_TIMESTAMP,
    ensures
        s@ == utc_date_time(seconds),
{
    format_utc(seconds)
}

/// The text that shows a size of memory of `kb` kilobytes.
pub open spec fn memory_text(kb: u32) -> Seq<char> {
    decimal((kb / 1000) as nat) + " MB"@
}

/// The rows that present the identity `m`, with `booted` for the time of
/// boot: a label and a text each.
pub open spec fn rows_with(m: MachineView, booted: Seq<char>) -> Seq<(Seq<char>, Seq<char>)> {
    seq![
        ("booted"@, booted),
        ("hostname"@, m.hostname),
        ("kernel"@, m.version),
        ("CPU"@, m.cpu_model_name),
        ("RAM"@, memory_text(m.physical_mem_total_kb)),
    ]
}

/// The rows that present the identity `m`: a label and a text each.
pub open spec fn message_rows(m: MachineView) -> Seq<(Seq<char>, Seq<char>)> {
    rows_with(m, utc_date_time(m.boottime))
}

/// What a sequence of labelled strings holds.
pub open spec fn labelled(v: Seq<(&'static str, String)>) -> Seq<(Seq<char>, Seq<char>)> {
    v.map_values(|row: (&'static str, String)| (row.0@, row.1@))
}

/// Presents a machine's identity as labelled texts, with the time of boot
/// written as `booted`: time of boot, host name, kernel, processor, and
/// memory in thousands of kilobytes.
pub fn present_machine(machine: &Machine, booted: String) -> (rows: Vec<(&'static str, String)>)
    ensures
        labelled(rows@) == rows_with(machine@, booted@),
{
    let mut ram: Vec<char> = Vec::new();
    push_decimal(&mut ram, (machine.physical_mem_total_kb / 1000) as u64);
    push_str(&mut ram, " MB");
    let mut rows: Vec<(&'static str, String)> = Vec::new();
    rows.push(("booted", booted));
    rows.push(("hostname", machine.hostname.clone()));
    rows.push(("kernel", machine.version.clone()));
    rows.push(("CPU", machine.cpu_model_name.clone()));
    rows.push(("RAM", from_chars(ram.as_slice())));
    assert(labelled(rows@) =~= rows_with(machine@, booted@));
    rows
}

/// Presents a machine's identity as labelled texts: time of boot as date
/// and time in UTC, host name, kernel, processor and memory.
pub fn stringify_message(machine: &Machine) -> (rows: Vec<(&'static str, String)>)
    requires
        machine.boottime <= MAX_TIMESTAMP,
    ensures
        labelled(rows@) == message_rows(machine@),
{
    present_machine(machine, stringify_duration(machine.boottime))
}

/// The text that names a build: package and version, kind of build, and
/// in brackets the revision it was built from.
pub open spec fn version_text(
    name: Seq<char>,
    version: Seq<char>,
    debug: bool,
    sha: Seq<char>,
    dirty: Seq<char>,
    timestamp: Seq<char>,
) -> Seq<char> {
    name + " v"@ + version + " "@ + (if debug {
        "debug"@
    } else {
        "release"@
    }) + " (Git SHA: "@ + sha + ", dirty: "@ + dirty + ", build time: "@ + timestamp + ")"@
}

/// Names a build in one line, from what the build knows of itself.
pub fn version_info(
    name: &str,
    version: &str,
    debug: bool,
    sha: &str,
    dirty: &str,
    timestamp: &str,
) -> (info: String)
    ensures
        info@ == version_text(name@, version@, debug, sha@, dirty@, timestamp@),
{
    let mut out: Vec<char> = Vec::new();
    push_str(&mut out, name);
    push_str(&mut out, " v");
    push_str(&mut out, version);
    push_str(&mut out, " ");
    if debug {
        push_str(&mut out, "debug");
    } else {
        push_str(&mut out, "release");
    }
    push_str(&mut out, " (Git SHA: ");
    push_str(&mut out, sha);
    push_str(&mut out, ", dirty: ");
    push_str(&mut out, dirty);
    push_str(&mut out, ", build time: ");
    push_str(&mut out, timestamp);
    push_str(&mut out, ")");
    assert(out@ == version_text(name@, version@, debug, sha@, dirty@, timestamp@));
    from_chars(out.as_slice())
}

/// The selector of the identities of all agents in group `grp`.
pub open spec fn machine_selector_text(grp: Seq<char>) -> Seq<char> {
    BASE_KEY_EXPR@ + seq!['/'] + grp + seq!['/'] + MACHINE_KEY_EXPR@ + "/**"@
}

/// The selector of the liveliness tokens of all agents in group `grp`.
pub open spec fn liveliness_selector_text(grp: Seq<char>) -> Seq<char> {
    BASE_KEY_EXPR@ + seq!['/'] + grp + seq!['/'] + LIVELINESS_KEY_EXPR@ + "/**"@
}

/// The selector with which a client asks for the identities of all agents
/// in group `grp`.
pub fn machine_selector(grp: &str) -> (selector: String)
    ensures
        selector@ == machine_selector_text(grp@),
{
    let mut out: Vec<char> = Vec::new();
    push_str(&mut out, BASE_KEY_EXPR);
    out.push('/');
    push_str(&mut out, grp);
    out.push('/');
    push_str(&mut out, MACHINE_KEY_EXPR);
    push_str(&mut out, "/**");
    assert(out@ == machine_selector_text(grp@));
    from_chars(out.as_slice())
}

/// The selector with which a client watches the liveliness tokens of all
/// agents in group `grp`.
pub fn liveliness_selector(grp: &str) -> (selector: String)
    ensures
        selector@ == liveliness_selector_text(grp@),
{
    let mut out: Vec<char> = Vec::new();
    push_str(&mut out, BASE_KEY_EXPR);
    out.push('/');
    push_str(&mut out, grp);
    out.push('/');
    push_str(&mut out, LIVELINESS_KEY_EXPR);
    push_str(&mut out, "/**");
    assert(out@ == liveliness_selector_text(grp@));
    from_chars(out.as_slice())
}

/// The line that tells of a liveliness token that appeared or went.
pub open spec fn presence_text(online: bool, topic: Seq<char>) -> Seq<char> {
    (if online {
        "machine online ('"@
    } else {
        "machine offline ('"@
    }) + topic + "')"@
}

/// The line with which a client tells that the token on `topic` appeared,
/// and its agent is online, or went, and its agent is offline.
pub fn presence_line(online: bool, topic: &str) -> (line: String)
    ensures
        line@ == presence_text(online, topic@),
{
    let mut out: Vec<char> = Vec::new();
    if online {
        push_str(&mut out, "machine online ('");
    } else {
        push_str(&mut out, "machine offline ('");
    }
    push_str(&mut out, topic);
    push_str(&mut out, "')");
    assert(out@ == presence_text(online, topic@));
    from_chars(out.as_slice())
}

} // verus!
