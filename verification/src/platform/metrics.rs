//! A snapshot of system metrics, read from the text of the kernel's
//! statistics and of the memory description.

use vstd::prelude::*;
use crate::codec::{metrics_wire, serialize_metrics};
use crate::messages::{CpuLoad, MemInfo, Metrics as Snapshot, MetricsView};
use crate::number::{
    leading_numeric,
    numeric_prefix,
    parse_digits,
    parse_number,
    parse_number_no_separator,
    read_decimal,
    second_word_number,
    NumberError,
};
use crate::platform::error::MachineError;
use crate::platform::utils::{parse_lines, parse_lines_no_separator, parsed_lines};
use crate::search::{begins_with, starts_with};
use crate::text::{rows, texts, to_chars};
use crate::words::{split_words, words};

verus! {

/// The text of the sources of a metrics snapshot, each as far as it could
/// be read.
pub struct Sources {
    /// The lines of the kernel's statistics.
    pub stat: Option<Vec<String>>,
    /// The lines of the memory description.
    pub meminfo: Option<Vec<String>>,
}

/// The numbers that the lines `found` begin with, for the lines that begin
/// with one that fits 32 bits.
pub open spec fn leading_numbers(found: Seq<Seq<char>>) -> Seq<u32>
    decreases found.len(),
{
    if found.len() == 0 {
        Seq::empty()
    } else {
        let rest = leading_numbers(found.drop_last());
        match read_decimal(numeric_prefix(found.last()), u32::MAX as nat) {
            Ok(v) => rest.push(v as u32),
            Err(_) => rest,
        }
    }
}

/// The numbers that the second words of the lines `found` begin with, for
/// the lines that have such a number that fits 32 bits.
pub open spec fn second_numbers(found: Seq<Seq<char>>) -> Seq<u32>
    decreases found.len(),
{
    if found.len() == 0 {
        Seq::empty()
    } else {
        let rest = second_numbers(found.drop_last());
        match second_word_number(found.last(), u32::MAX as nat) {
            Some(v) => rest.push(v as u32),
            None => rest,
        }
    }
}

/// The number that word `k` of `w` begins with, where it fits 64 bits.
pub open spec fn counter_at(w: Seq<Seq<char>>, k: int) -> Option<u64> {
    match read_decimal(numeric_prefix(w[k]), u64::MAX as nat) {
        Ok(v) => Some(v as u64),
        Err(_) => None,
    }
}

/// The five time counters of a processor line: a line that begins with
/// `cpu` and whose second to sixth word each begin with a number.
pub open spec fn cpu_counters(line: Seq<char>) -> Option<Seq<u64>> {
    let w = words(line);
    if starts_with(line, "cpu"@) && w.len() >= 6 && counter_at(w, 1) is Some && counter_at(w, 2)
        is Some && counter_at(w, 3) is Some && counter_at(w, 4) is Some && counter_at(w, 5)
        is Some {
        Some(
            seq![
                counter_at(w, 1)->0,
                counter_at(w, 2)->0,
                counter_at(w, 3)->0,
                counter_at(w, 4)->0,
                counter_at(w, 5)->0,
            ],
        )
    } else {
        None
    }
}

/// The time counters of the processor lines among `ls`, line by line.
pub open spec fn cpu_rows(ls: Seq<Seq<char>>) -> Seq<Seq<u64>>
    decreases ls.len(),
{
    if ls.len() == 0 {
        Seq::empty()
    } else {
        let rest = cpu_rows(ls.drop_last());
        match cpu_counters(ls.last()) {
            Some(row) => rest.push(row),
            None => rest,
        }
    }
}

/// What a sequence of vectors of counters holds.
pub open spec fn counters(v: Seq<Vec<u64>>) -> Seq<Seq<u64>> {
    v.map_values(|row: Vec<u64>| row@)
}

/// The elements that ask for the process counts.
pub open spec fn process_elements() -> Seq<(&'static str, bool)> {
    seq![("processes", false), ("procs_running", false), ("procs_blocked", false)]
}

/// The elements that ask for the memory counters.
pub open spec fn memory_elements() -> Seq<(&'static str, bool)> {
    seq![
        ("MemTotal", false),
        ("MemFree", false),
        ("MemAvailable", false),
        ("SwapTotal", false),
        ("SwapFree", false),
    ]
}

/// The numbers of processes that the kernel's statistics `ls` show:
/// all, running and blocked, where they show all three.
pub open spec fn process_counts_of(ls: Seq<Seq<char>>) -> Option<Seq<u32>> {
    let values = second_numbers(parsed_lines(ls, process_elements(), false, ls.len() as int));
    if values.len() == 3 {
        Some(values)
    } else {
        None
    }
}

/// The memory counters that the memory description `ls` shows, where it
/// shows all five.
pub open spec fn memory_counters_of(ls: Seq<Seq<char>>) -> Option<Seq<u32>> {
    let values = leading_numbers(parsed_lines(ls, memory_elements(), true, ls.len() as int));
    if values.len() == 5 {
        Some(values)
    } else {
        None
    }
}

/// The processor loads of a snapshot: one for each row of counters, where
/// there is a row for all processors together and one more at least.
pub open spec fn loads_of(table: Seq<Seq<u64>>) -> Seq<CpuLoad> {
    if table.len() > 1 {
        Seq::new(
            table.len(),
            |i: int|
                CpuLoad {
                    user: table[i][0],
                    nice: table[i][1],
                    system: table[i][2],
                    idle: table[i][3],
                    iowait: table[i][4],
                },
        )
    } else {
        Seq::empty()
    }
}

/// The snapshot that the sources describe. What a source does not show
/// in full stays zero or empty.
pub open spec fn metrics_of(stat: Option<Seq<Seq<char>>>, meminfo: Option<Seq<Seq<char>>>)
    -> MetricsView {
    let counts = match stat {
        Some(ls) => process_counts_of(ls),
        None => None,
    };
    let memory = match meminfo {
        Some(ls) => memory_counters_of(ls),
        None => None,
    };
    MetricsView {
        processes: match counts {
            Some(c) => c[0],
            None => 0,
        },
        runnable_processes: match counts {
            Some(c) => c[1],
            None => 0,
        },
        processes_blocked: match counts {
            Some(c) => c[2],
            None => 0,
        },
        mem_info: match memory {
            Some(v) => Some(
                MemInfo {
                    mem_total: v[0],
                    mem_free: v[1],
                    mem_available: v[2],
                    swap_total: v[3],
                    swap_free: v[4],
                },
            ),
            None => None,
        },
        cpu_load: match stat {
            Some(ls) => loads_of(cpu_rows(ls)),
            None => Seq::empty(),
        },
    }
}

/// Picks lines as `parse_lines` does and reads the number that each of
/// them begins with. A line that begins with no number gives none.
pub fn parse_lines_as_numbers(lines: Vec<String>, elements: Vec<(&str, bool)>, drop_key: bool)
    -> (values: Vec<u32>)
    ensures
        values@ == leading_numbers(
            parsed_lines(texts(lines@), elements@, drop_key, lines.len() as int),
        ),
{
    let found = parse_lines(lines, elements, drop_key);
    let mut values: Vec<u32> = Vec::new();
    let mut i: usize = 0;
    assert(texts(found@).take(0) == Seq::<Seq<char>>::empty());
    while i < found.len()
        invariant
            i <= found.len(),
            values@ == leading_numbers(texts(found@).take(i as int)),
        decreases found.len() - i,
    {
        proof {
            assert(texts(found@).take(i + 1).drop_last() == texts(found@).take(i as int));
            assert(texts(found@).take(i + 1).last() == found@[i as int]@);
        }
        let r: Result<u32, NumberError> = parse_number(found[i].as_str());
        if let Ok(v) = r {
            values.push(v);
        }
        i += 1;
    }
    assert(texts(found@).take(found.len() as int) == texts(found@));
    values
}

/// Reads the number that `word` begins with.
fn parse_counter(word: &[char]) -> (r: Option<u64>)
    ensures
        r == match read_decimal(numeric_prefix(word@), u64::MAX as nat) {
            Ok(v) => Some(v as u64),
            Err(_) => None,
        },
{
    let prefix = leading_numeric(word);
    let r: Result<u64, NumberError> = parse_digits(prefix.as_slice());
    match r {
        Ok(v) => Some(v),
        Err(_) => None,
    }
}

/// Reads the five time counters of a processor line.
pub fn parse_cpu_stat_line(line: &str) -> (r: Option<Vec<u64>>)
    ensures
        match r {
            Some(row) => cpu_counters(line@) == Some(row@),
            None => cpu_counters(line@) is None,
        },
{
    let chars = to_chars(line);
    let marker = to_chars("cpu");
    if !begins_with(chars.as_slice(), marker.as_slice()) {
        return None;
    }
    let w = split_words(chars.as_slice());
    if w.len() < 6 {
        return None;
    }
    proof {
        assert(rows(w@)[1] == w@[1]@);
        assert(rows(w@)[2] == w@[2]@);
        assert(rows(w@)[3] == w@[3]@);
        assert(rows(w@)[4] == w@[4]@);
        assert(rows(w@)[5] == w@[5]@);
    }
    let user = parse_counter(w[1].as_slice());
    let nice = parse_counter(w[2].as_slice());
    let system = parse_counter(w[3].as_slice());
    let idle = parse_counter(w[4].as_slice());
    let iowait = parse_counter(w[5].as_slice());
    match (user, nice, system, idle, iowait) {
        (Some(a), Some(b), Some(c), Some(d), Some(e)) => {
            let mut row: Vec<u64> = Vec::new();
            row.push(a);
            row.push(b);
            row.push(c);
            row.push(d);
            row.push(e);
            assert(row@ =~= cpu_counters(line@)->0);
            Some(row)
        },
        _ => None,
    }
}

/// Reads the time counters of the processor lines among the lines of the
/// kernel's statistics: user, nice, system, idle and I/O wait, first for
/// all processors together and then for each.
pub fn parse_cpu_stat_lines(lines: Vec<String>) -> (table: Vec<Vec<u64>>)
    ensures
        counters(table@) == cpu_rows(texts(lines@)),
        forall|i: int| 0 <= i < table@.len() ==> (#[trigger] table@[i])@.len() == 5,
{
    let mut table: Vec<Vec<u64>> = Vec::new();
    let mut i: usize = 0;
    assert(texts(lines@).take(0) == Seq::<Seq<char>>::empty());
    assert(counters(table@) =~= Seq::<Seq<u64>>::empty());
    while i < lines.len()
        invariant
            i <= lines.len(),
            counters(table@) == cpu_rows(texts(lines@).take(i as int)),
            forall|k: int| 0 <= k < table@.len() ==> (#[trigger] table@[k])@.len() == 5,
        decreases lines.len() - i,
    {
        proof {
            assert(texts(lines@).take(i + 1).drop_last() == texts(lines@).take(i as int));
            assert(texts(lines@).take(i + 1).last() == lines@[i as int]@);
        }
        if let Some(row) = parse_cpu_stat_line(lines[i].as_str()) {
            assert(counters(table@.push(row)) =~= counters(table@).push(row@));
            table.push(row);
        }
        i += 1;
    }
    assert(texts(lines@).take(lines.len() as int) == texts(lines@));
    table
}

/// The elements that ask for the first lines beginning with `keys`.
fn ask_for_all(keys: &[&'static str]) -> (elements: Vec<(&'static str, bool)>)
    ensures
        elements@.len() == keys@.len(),
        forall|i: int| 0 <= i < keys@.len() ==> #[trigger] elements@[i] == (keys@[i], false),
{
    let mut elements: Vec<(&'static str, bool)> = Vec::new();
    let mut i: usize = 0;
    while i < keys.len()
        invariant
            i <= keys.len(),
            elements@.len() == i,
            forall|k: int| 0 <= k < i ==> #[trigger] elements@[k] == (keys@[k], false),
        decreases keys.len() - i,
    {
        elements.push((keys[i], false));
        i += 1;
    }
    elements
}

/// Reads the numbers of processes from the lines of the kernel's
/// statistics: all, running, blocked. Gives them only where all three are
/// there.
pub fn parse_no_of_processes(all_lines: Vec<String>) -> (r: Option<Vec<u32>>)
    ensures
        match r {
            Some(values) => process_counts_of(texts(all_lines@)) == Some(values@),
            None => process_counts_of(texts(all_lines@)) is None,
        },
{
    let keys: [&'static str; 3] = ["processes", "procs_running", "procs_blocked"];
    let elements = ask_for_all(&keys);
    assert(elements@ =~= process_elements());
    let lines = parse_lines_no_separator(all_lines, elements);
    let mut values: Vec<u32> = Vec::new();
    let mut i: usize = 0;
    assert(texts(lines@).take(0) == Seq::<Seq<char>>::empty());
    while i < lines.len()
        invariant
            i <= lines.len(),
            values@ == second_numbers(texts(lines@).take(i as int)),
        decreases lines.len() - i,
    {
        proof {
            assert(texts(lines@).take(i + 1).drop_last() == texts(lines@).take(i as int));
            assert(texts(lines@).take(i + 1).last() == lines@[i as int]@);
        }
        let v: Option<u32> = parse_number_no_separator(lines[i].as_str());
        if let Some(value) = v {
            values.push(value);
        }
        i += 1;
    }
    assert(texts(lines@).take(lines.len() as int) == texts(lines@));
    if values.len() == 3 {
        Some(values)
    } else {
        None
    }
}

/// Reads the memory counters from the lines of the memory description:
/// total, free, available, swap total, swap free. Gives them only where
/// all five are there.
pub fn parse_meminfo(lines: Vec<String>) -> (r: Option<Vec<u32>>)
    ensures
        match r {
            Some(values) => memory_counters_of(texts(lines@)) == Some(values@),
            None => memory_counters_of(texts(lines@)) is None,
        },
{
    let keys: [&'static str; 5] = ["MemTotal", "MemFree", "MemAvailable", "SwapTotal", "SwapFree"];
    let elements = ask_for_all(&keys);
    assert(elements@ =~= memory_elements());
    let values = parse_lines_as_numbers(lines, elements, true);
    if values.len() == 5 {
        Some(values)
    } else {
        None
    }
}

/// Reads the processor loads from the lines of the kernel's statistics.
/// Gives the table of counters where it has a row.
pub fn parse_cpuload(lines: Vec<String>) -> (r: Option<Vec<Vec<u64>>>)
    ensures
        match r {
            Some(table) => counters(table@) == cpu_rows(texts(lines@)) && table@.len() > 0
                && forall|i: int| 0 <= i < table@.len() ==> (#[trigger] table@[i])@.len() == 5,
            None => cpu_rows(texts(lines@)).len() == 0,
        },
{
    let values = parse_cpu_stat_lines(lines);
    assert(counters(values@).len() == values@.len());
    if values.len() > 0 {
        Some(values)
    } else {
        None
    }
}

/// A copy of `lines`.
fn copy_lines(lines: &Vec<String>) -> (copy: Vec<String>)
    ensures
        texts(copy@) == texts(lines@),
{
    let mut copy: Vec<String> = Vec::new();
    let mut i: usize = 0;
    while i < lines.len()
        invariant
            i <= lines.len(),
            copy@.len() == i,
            forall|k: int| 0 <= k < i ==> (#[trigger] copy@[k])@ == lines@[k]@,
        decreases lines.len() - i,
    {
        copy.push(lines[i].clone());
        i += 1;
    }
    assert(texts(copy@) =~= texts(lines@));
    copy
}

/// Builds a snapshot of metrics from its sources. What a source does not
/// show in full stays zero or empty.
pub fn load(sources: Sources) -> (metrics: Snapshot)
    ensures
        metrics@ == metrics_of(
            crate::platform::machine::lines_of(sources.stat),
            crate::platform::machine::lines_of(sources.meminfo),
        ),
{
    let mut metrics = Snapshot::default();
    if let Some(stat) = sources.stat {
        let again = copy_lines(&stat);
        if let Some(no_of_processes) = parse_no_of_processes(stat) {
            if no_of_processes.len() == 3 {
                metrics.processes = no_of_processes[0];
                metrics.runnable_processes = no_of_processes[1];
                metrics.processes_blocked = no_of_processes[2];
            }
        }
        if let Some(values) = parse_cpuload(again) {
            if values.len() > 1 {
                let mut cpus: Vec<CpuLoad> = Vec::new();
                let mut i: usize = 0;
                while i < values.len()
                    invariant
                        i <= values.len(),
                        values@.len() > 1,
                        forall|k: int|
                            0 <= k < values@.len() ==> (#[trigger] values@[k])@.len() == 5,
                        cpus@ == loads_of(counters(values@)).take(i as int),
                    decreases values.len() - i,
                {
                    let value = &values[i];
                    let cpu = CpuLoad {
                        user: value[0],
                        nice: value[1],
                        system: value[2],
                        idle: value[3],
                        iowait: value[4],
                    };
                    cpus.push(cpu);
                    assert(cpus@ =~= loads_of(counters(values@)).take(i + 1));
                    i += 1;
                }
                assert(loads_of(counters(values@)).take(values.len() as int) == loads_of(
                    counters(values@),
                ));
                metrics.cpu_load = cpus;
            }
        }
    }
    if let Some(meminfo) = sources.meminfo {
        if let Some(values) = parse_meminfo(meminfo) {
            if values.len() == 5 {
                let info = MemInfo {
                    mem_total: values[0],
                    mem_free: values[1],
                    mem_available: values[2],
                    swap_total: values[3],
                    swap_free: values[4],
                };
                metrics.mem_info = Some(info);
            }
        }
    }
    metrics
}

/// A snapshot of system metrics.
pub struct Metrics {
    metrics: Snapshot,
}

impl Metrics {
    /// The snapshot held.
    pub closed spec fn snapshot(&self) -> MetricsView {
        self.metrics@
    }

    /// Takes a snapshot from the sources. What a source does not show in
    /// full stays zero or empty, so this does not fail.
    pub fn new(sources: Sources) -> (r: Result<Metrics, MachineError>)
        ensures
            r matches Ok(m) && m.snapshot() == metrics_of(
                crate::platform::machine::lines_of(sources.stat),
                crate::platform::machine::lines_of(sources.meminfo),
            ),
    {
        let metrics = load(sources);
        Ok(Metrics { metrics })
    }

    /// The snapshot as the bytes that are published.
    pub fn serialize(&self) -> (buf: Vec<u8>)
        ensures
            buf@ == metrics_wire(self.snapshot()),
    {
        serialize_metrics(&self.metrics)
    }

    /// The snapshot held.
    pub fn record(&self) -> (m: &Snapshot)
        ensures
            m@ == self.snapshot(),
    {
        &self.metrics
    }
}

} // verus!
