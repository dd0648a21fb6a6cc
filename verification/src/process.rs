//! Process records and the table that holds them.

use vstd::prelude::*;
use std::collections::HashMap;
use vstd::std_specs::iter::IteratorSpec;
use crate::delta::{usage_between, usage_of, CpuTimes, Usage};
use crate::signal::{signal_of, Signal};
use crate::text::{chars_of, contains_run, has_run, run_at};

verus! {

/// A process identifier, as the system assigns it.
pub type Pid = usize;

/// What a process is doing.
#[derive(Clone, Copy, Debug, PartialEq, Eq, Structural)]
pub enum ProcessStatus {
    Running,
    Sleeping,
    Waiting,
    Zombie,
    Stopped,
    Dead,
    Unknown,
}

/// One observation of one process.
#[derive(Clone, Debug, PartialEq, Eq)]
pub struct ProcessSample {
    pub pid: Pid,
    pub parent: Option<Pid>,
    pub name: String,
    pub exe: String,
    pub cmd: Vec<String>,
    pub cwd: String,
    pub status: ProcessStatus,
    /// Memory in use, in KB.
    pub memory: u64,
    /// Processor time used since the process started.
    pub cpu_time: u64,
}

/// The record of one process: its most recent observation, the reading of the
/// system's clock that went with it, and the share of processor time it took
/// between the two most recent observations.
#[derive(Clone, Debug, PartialEq, Eq)]
pub struct Process {
    pub info: ProcessSample,
    pub total_time: u64,
    pub usage: Usage,
}

/// The record of a process after it was observed as `sample` while the
/// system's clock read `total_time`. `previous` is its record before, if it
/// had one: the processor time and the clock of that record are what the new
/// share is measured from. A process seen for the first time starts in the
/// zero state.
pub open spec fn observed(previous: Option<Process>, sample: ProcessSample, total_time: u64) -> Process {
    let current = CpuTimes { busy: sample.cpu_time, total: total_time };
    Process {
        info: sample,
        total_time,
        usage: match previous {
            Some(p) => usage_of(
                Some(CpuTimes { busy: p.info.cpu_time, total: p.total_time }),
                current,
                p.usage,
            ),
            None => usage_of(None, current, Usage { busy: 0, total: 0 }),
        },
    }
}

impl Process {
    /// Computes `observed`.
    pub fn observe(previous: Option<&Process>, sample: ProcessSample, total_time: u64) -> (record:
        Process)
        ensures
            record == observed(
                match previous {
                    Some(p) => Some(*p),
                    None => None,
                },
                sample,
                total_time,
            ),
            record.info.pid == sample.pid,
            previous is None ==> record.usage.percent_value() == 0,
    {
        let current = CpuTimes { busy: sample.cpu_time, total: total_time };
        let usage: Usage = match previous {
            Some(p) => usage_between(
                Some(CpuTimes { busy: p.info.cpu_time, total: p.total_time }),
                current,
                p.usage,
            ),
            None => usage_between(None, current, Usage::zero()),
        };
        Process { info: sample, total_time, usage }
    }

    pub fn pid(&self) -> (pid: Pid)
        ensures
            pid == self.info.pid,
    {
        self.info.pid
    }

    pub fn parent(&self) -> (parent: Option<Pid>)
        ensures
            parent == self.info.parent,
    {
        self.info.parent
    }

    pub fn name(&self) -> (s: &str)
        ensures
            s@ == self.info.name@,
    {
        self.info.name.as_str()
    }

    pub fn exe(&self) -> (s: &str)
        ensures
            s@ == self.info.exe@,
    {
        self.info.exe.as_str()
    }

    pub fn cmd(&self) -> (args: &Vec<String>)
        ensures
            *args == self.info.cmd,
    {
        &self.info.cmd
    }

    pub fn cwd(&self) -> (s: &str)
        ensures
            s@ == self.info.cwd@,
    {
        self.info.cwd.as_str()
    }

    pub fn status(&self) -> (status: ProcessStatus)
        ensures
            status == self.info.status,
    {
        self.info.status
    }

    pub fn memory(&self) -> (kb: u64)
        ensures
            kb == self.info.memory,
    {
        self.info.memory
    }

    /// The share of processor time in whole percent, between 0 and 100.
    pub fn cpu_usage(&self) -> (p: u8)
        ensures
            p == self.usage.percent_value(),
            p <= 100,
    {
        self.usage.percent()
    }
}

// ---------------------------------------------------------------------------
// The table
// ---------------------------------------------------------------------------

/// The table after a refresh that observed `samples`, in the order in which
/// they were read, while the system's clock read `total_time`. It holds the
/// observed processes and no others; each record is measured against the
/// record that `before` held for the process. Where one identifier was
/// observed twice, the later observation stands.
pub open spec fn refreshed_table(
    before: Map<Pid, Process>,
    samples: Seq<ProcessSample>,
    total_time: u64,
) -> Map<Pid, Process>
    decreases samples.len(),
{
    if samples.len() == 0 {
        Map::empty()
    } else {
        let sample = samples.last();
        refreshed_table(before, samples.drop_last(), total_time).insert(
            sample.pid,
            observed(before.get(sample.pid), sample, total_time),
        )
    }
}

/// Whether `samples` holds an observation of the process `pid`.
pub open spec fn observes(samples: Seq<ProcessSample>, pid: Pid) -> bool {
    exists|i: int| 0 <= i < samples.len() && (#[trigger] samples[i]).pid == pid
}

/// A full refresh keeps exactly the processes it observed: an identifier is
/// in the table afterwards if and only if it was observed, so a process that
/// was known and is no longer observed is gone. Every record stands under its
/// own identifier.
pub proof fn lemma_refreshed_table_domain(
    before: Map<Pid, Process>,
    samples: Seq<ProcessSample>,
    total_time: u64,
    pid: Pid,
)
    ensures
        refreshed_table(before, samples, total_time).contains_key(pid) <==> observes(samples, pid),
        refreshed_table(before, samples, total_time).contains_key(pid) ==> refreshed_table(
            before,
            samples,
            total_time,
        )[pid].info.pid == pid,
        refreshed_table(before, samples, total_time).dom().finite(),
    decreases samples.len(),
{
    if samples.len() > 0 {
        let earlier = samples.drop_last();
        lemma_refreshed_table_domain(before, earlier, total_time, pid);
        if observes(samples, pid) {
            let i = choose|i: int| 0 <= i < samples.len() && (#[trigger] samples[i]).pid == pid;
            if i < samples.len() - 1 {
                assert(earlier[i].pid == pid);
            }
        }
        if observes(earlier, pid) {
            let i = choose|i: int| 0 <= i < earlier.len() && (#[trigger] earlier[i]).pid == pid;
            assert(samples[i].pid == pid);
        }
        if samples.last().pid == pid {
            assert(samples[samples.len() - 1].pid == pid);
        }
    }
}

/// After a full refresh the record of an observed process is its last
/// observation, measured against the record it had before.
pub proof fn lemma_refreshed_table_record(
    before: Map<Pid, Process>,
    samples: Seq<ProcessSample>,
    total_time: u64,
    i: int,
)
    requires
        0 <= i < samples.len(),
        forall|j: int| i < j < samples.len() ==> (#[trigger] samples[j]).pid != samples[i].pid,
    ensures
        refreshed_table(before, samples, total_time).contains_key(samples[i].pid),
        refreshed_table(before, samples, total_time)[samples[i].pid] == observed(
            before.get(samples[i].pid),
            samples[i],
            total_time,
        ),
    decreases samples.len(),
{
    if i < samples.len() - 1 {
        let earlier = samples.drop_last();
        assert(earlier[i] == samples[i]);
        assert(samples[samples.len() - 1].pid != samples[i].pid);
        assert forall|j: int| i < j < earlier.len() implies (#[trigger] earlier[j]).pid
            != earlier[i].pid by {
            assert(samples[j].pid != samples[i].pid);
        }
        lemma_refreshed_table_record(before, earlier, total_time, i);
    }
}

/// A full refresh that observes at least one process leaves a table that is
/// not empty.
pub proof fn lemma_refreshed_table_not_empty(
    before: Map<Pid, Process>,
    samples: Seq<ProcessSample>,
    total_time: u64,
)
    requires
        samples.len() > 0,
    ensures
        refreshed_table(before, samples, total_time).len() > 0,
{
    let table = refreshed_table(before, samples, total_time);
    let pid = samples.last().pid;
    lemma_refreshed_table_domain(before, samples, total_time, pid);
    assert(table.dom().contains(pid));
    if table.dom().len() == 0 {
        table.dom().lemma_len0_is_empty();
    }
}

/// The processes of the system, by identifier.
pub struct ProcessTable {
    table: HashMap<Pid, Process>,
}

impl View for ProcessTable {
    type V = Map<Pid, Process>;

    closed spec fn view(&self) -> Map<Pid, Process> {
        self.table@
    }
}

impl ProcessTable {
    #[verifier::type_invariant]
    spec fn well_formed(self) -> bool {
        forall|pid: Pid| #[trigger] self.table@.contains_key(pid) ==> self.table@[pid].info.pid == pid
    }

    /// An empty table.
    pub fn new() -> (table: ProcessTable)
        ensures
            table@ == Map::<Pid, Process>::empty(),
    {
        ProcessTable { table: HashMap::new() }
    }

    /// The number of processes.
    pub fn len(&self) -> (n: usize)
        ensures
            n == self@.len(),
    {
        self.table.len()
    }

    pub fn is_empty(&self) -> (empty: bool)
        ensures
            empty == (self@.len() == 0),
    {
        self.table.len() == 0
    }

    /// The record of the process `pid`.
    pub fn get(&self, pid: Pid) -> (record: Option<&Process>)
        ensures
            match record {
                Some(p) => self@.contains_key(pid) && *p == self@[pid] && p.info.pid == pid,
                None => !self@.contains_key(pid),
            },
    {
        proof {
            use_type_invariant(self);
        }
        self.table.get(&pid)
    }

    /// Replaces the table by what a full enumeration of the processes
    /// observed.
    pub fn refresh(&mut self, samples: Vec<ProcessSample>, total_time: u64)
        ensures
            final(self)@ == refreshed_table(old(self)@, samples@, total_time),
    {
        let mut fresh: HashMap<Pid, Process> = HashMap::new();
        for sample in it: samples
            invariant
                it.seq() == samples@,
                fresh@ == refreshed_table(self.table@, samples@.take(it.index() as int), total_time),
                forall|pid: Pid| #[trigger]
                    fresh@.contains_key(pid) ==> fresh@[pid].info.pid == pid,
        {
            proof {
                let upto = samples@.take(it.index() + 1);
                assert(upto.drop_last() =~= samples@.take(it.index() as int));
                assert(upto.last() == sample);
            }
            let pid: Pid = sample.pid;
            let record: Process = Process::observe(self.table.get(&pid), sample, total_time);
            fresh.insert(pid, record);
        }
        assert(samples@.take(samples@.len() as int) =~= samples@);
        self.table = fresh;
    }

    /// Takes in the observation of the single process `pid`: `sample` is what
    /// was read of it, `None` where it is gone. Returns whether the process is
    /// still there. The rest of the table is not touched, and a process that
    /// is gone keeps its record. An observation of another process than `pid`
    /// is refused in the same way.
    pub fn refresh_one(&mut self, pid: Pid, sample: Option<ProcessSample>, total_time: u64) -> (alive:
        bool)
        ensures
            alive == (sample matches Some(s) && s.pid == pid),
            alive ==> final(self)@ == old(self)@.insert(
                pid,
                observed(old(self)@.get(pid), sample->0, total_time),
            ),
            !alive ==> final(self)@ == old(self)@,
    {
        proof {
            use_type_invariant(&*self);
        }
        match sample {
            Some(sample) => {
                if sample.pid != pid {
                    return false;
                }
                let record: Process = Process::observe(self.table.get(&pid), sample, total_time);
                let mut table: HashMap<Pid, Process> = HashMap::new();
                std::mem::swap(&mut self.table, &mut table);
                table.insert(pid, record);
                std::mem::swap(&mut self.table, &mut table);
                true
            },
            None => false,
        }
    }

    /// The identifiers of the processes whose name holds `needle` as a run of
    /// consecutive characters, each once, in no particular order.
    pub fn by_name(&self, needle: &str) -> (found: Vec<Pid>)
        ensures
            found@.no_duplicates(),
            forall|pid: Pid|
                found@.contains(pid) <==> self@.contains_key(pid) && has_run(
                    self@[pid].info.name@,
                    needle@,
                ),
    {
        let wanted: Vec<char> = chars_of(needle);
        let mut found: Vec<Pid> = Vec::new();
        let ghost entries = self.table.iter().remaining();
        for entry in it: self.table.iter()
            invariant
                wanted@ == needle@,
                it.seq() == entries,
                entries == self.table.iter().remaining(),
                entries.no_duplicates(),
                found@.no_duplicates(),
                forall|pid: Pid| found@.contains(pid) <==> named_before(entries, needle@, it.index() as int, pid),
        {
            let ghost before = found@;
            let ghost at = it.index() as int;
            let pid: Pid = *entry.0;
            let name: Vec<char> = chars_of(entry.1.info.name.as_str());
            let hit: bool = contains_run(&name, &wanted);
            if hit {
                proof {
                    if before.contains(pid) {
                        let i = choose|i: int| 0 <= i < at && #[trigger] named_at(entries, needle@, i, pid);
                        assert(self.table@[*entries[i].0] == *entries[i].1);
                        assert(self.table@[*entries[at].0] == *entries[at].1);
                        assert(entries[i] == entries[at]);
                    }
                }
                found.push(pid);
            }
            proof {
                assert(named_at(entries, needle@, at, pid) == hit);
                assert(found@ == if hit {
                    before.push(pid)
                } else {
                    before
                });
                assert forall|p: Pid| found@.contains(p) <==> named_before(entries, needle@, at + 1, p) by {
                    if found@.contains(p) {
                        let j = choose|j: int| 0 <= j < found@.len() && found@[j] == p;
                        if j < before.len() {
                            assert(before[j] == p);
                            assert(before.contains(p));
                            let i = choose|i: int| 0 <= i < at && #[trigger] named_at(entries, needle@, i, p);
                            assert(named_at(entries, needle@, i, p));
                        } else {
                            assert(p == pid);
                            assert(named_at(entries, needle@, at, p));
                        }
                    }
                    if named_before(entries, needle@, at + 1, p) {
                        let i = choose|i: int| 0 <= i < at + 1 && #[trigger] named_at(entries, needle@, i, p);
                        if i < at {
                            assert(named_before(entries, needle@, at, p));
                            assert(before.contains(p));
                            let j = choose|j: int| 0 <= j < before.len() && before[j] == p;
                            assert(found@[j] == p);
                        } else {
                            assert(p == pid && hit);
                            assert(found@[before.len() as int] == p);
                        }
                    }
                }
            }
        }
        proof {
            assert forall|pid: Pid|
                found@.contains(pid) <==> self@.contains_key(pid) && has_run(
                    self@[pid].info.name@,
                    needle@,
                ) by {
                if found@.contains(pid) {
                    let i = choose|i: int| 0 <= i < entries.len() && #[trigger] named_at(entries, needle@, i, pid);
                    assert(self.table@.contains_key(*entries[i].0));
                    assert(self.table@[*entries[i].0] == *entries[i].1);
                }
                if self@.contains_key(pid) && has_run(self@[pid].info.name@, needle@) {
                    assert(entries.contains((&pid, &self.table@[pid])));
                    let i = choose|i: int|
                        0 <= i < entries.len() && entries[i] == (&pid, &self.table@[pid]);
                    assert(named_at(entries, needle@, i, pid));
                }
            }
        }
        found
    }
}

impl ProcessTable {
    /// The identifiers of all processes, each once, in no particular order.
    pub fn pids(&self) -> (all: Vec<Pid>)
        ensures
            all@.no_duplicates(),
            forall|pid: Pid| all@.contains(pid) <==> self@.contains_key(pid),
    {
        let all: Vec<Pid> = self.by_name("");
        proof {
            reveal_strlit("");
            assert forall|pid: Pid| self@.contains_key(pid) implies has_run(
                self@[pid].info.name@,
                ""@,
            ) by {
                let name = self@[pid].info.name@;
                assert(name.subrange(0, 0) =~= ""@);
                assert(run_at(name, ""@, 0));
            }
        }
        all
    }
}

/// Whether entry `i` of `entries` is a process `pid` whose name holds `needle`.
spec fn named_at(entries: Seq<(&Pid, &Process)>, needle: Seq<char>, i: int, pid: Pid) -> bool {
    *entries[i].0 == pid && has_run(entries[i].1.info.name@, needle)
}

/// Whether one of the first `n` entries is a process `pid` whose name holds
/// `needle`.
spec fn named_before(entries: Seq<(&Pid, &Process)>, needle: Seq<char>, n: int, pid: Pid) -> bool {
    exists|i: int| 0 <= i < n && #[trigger] named_at(entries, needle, i, pid)
}

/// What is to be done about a request to send a signal.
#[derive(Clone, Copy, Debug, PartialEq, Eq, Structural)]
pub enum SignalRequest {
    /// The number names no signal: nothing is to be asked of the system.
    InvalidSignal,
    /// The table holds no such process: nothing is to be asked of the system.
    NoSuchProcess,
    /// The system is to be asked to deliver `signal` to the process `pid`.
    Deliver { pid: Pid, signal: Signal },
}

/// What is to be done about a request to send the signal numbered `number` to
/// the process `pid`, given the table of known processes. The number is looked
/// at first.
pub open spec fn signal_request_of(table: Map<Pid, Process>, pid: Pid, number: int) -> SignalRequest {
    match signal_of(number) {
        None => SignalRequest::InvalidSignal,
        Some(signal) => if table.contains_key(pid) {
            SignalRequest::Deliver { pid, signal }
        } else {
            SignalRequest::NoSuchProcess
        },
    }
}

impl ProcessTable {
    /// Decides what is to be done about a request to send the signal numbered
    /// `number` to the process `pid`.
    pub fn signal_request(&self, pid: Pid, number: i32) -> (request: SignalRequest)
        ensures
            request == signal_request_of(self@, pid, number as int),
            !(1 <= number <= 31) ==> request == SignalRequest::InvalidSignal,
    {
        match Signal::from_number(number) {
            None => SignalRequest::InvalidSignal,
            Some(signal) => {
                if self.table.contains_key(&pid) {
                    SignalRequest::Deliver { pid, signal }
                } else {
                    SignalRequest::NoSuchProcess
                }
            },
        }
    }
}

/// Whether a request to send a signal succeeded: it did where the system was
/// asked and reported the delivery. `delivered` is the system's answer, and is
/// not looked at where the system was not to be asked.
pub open spec fn signal_sent(request: SignalRequest, delivered: bool) -> bool {
    request is Deliver && delivered
}

/// Computes `signal_sent`.
pub fn signal_outcome(request: SignalRequest, delivered: bool) -> (sent: bool)
    ensures
        sent == signal_sent(request, delivered),
{
    match request {
        SignalRequest::Deliver { .. } => delivered,
        _ => false,
    }
}

/// A number outside 1 to 31 is refused whatever the table holds, and such a
/// request never succeeds, whatever the system would have answered.
pub proof fn lemma_invalid_signal_rejected(
    table: Map<Pid, Process>,
    pid: Pid,
    number: int,
    delivered: bool,
)
    requires
        number < 1 || number > 31,
    ensures
        signal_request_of(table, pid, number) == SignalRequest::InvalidSignal,
        !signal_sent(signal_request_of(table, pid, number), delivered),
{
}

} // verus!
