//! The state of one host and the refresh operations on it.

use vstd::prelude::*;
use crate::delta::{CpuTimes, Usage};
use crate::network::{net_refreshed, NetworkData, NetworkSample, Networks};
use crate::process::{
    lemma_refreshed_table_domain, lemma_refreshed_table_not_empty, observed, observes,
    refreshed_table, signal_request_of, Pid, Process, ProcessSample, ProcessTable, SignalRequest,
};
use crate::processor::Processor;
use crate::records::{Component, LoadAvg, MemorySample, User};
use crate::text::has_run;
use crate::tools::{init_processors, processor_name};

verus! {

/// The state of a host. The first processor of the list stands for all of
/// them together, the others are the cores.
pub struct System {
    pub processors: Vec<Processor>,
    pub memory: MemorySample,
    pub processes: ProcessTable,
    pub networks: Networks,
    pub components: Vec<Component>,
    pub users: Vec<User>,
    /// Seconds since the epoch at which the host started, once it was read.
    pub boot_time: Option<u64>,
    pub load_average: LoadAvg,
}

/// What a `System` holds, as mathematical values.
pub struct SystemView {
    pub processors: Seq<Processor>,
    pub memory: MemorySample,
    pub processes: Map<Pid, Process>,
    pub networks: Seq<NetworkData>,
    pub components: Seq<Component>,
    pub users: Seq<User>,
    pub boot_time: Option<u64>,
    pub load_average: LoadAvg,
}

impl View for System {
    type V = SystemView;

    open spec fn view(&self) -> SystemView {
        SystemView {
            processors: self.processors@,
            memory: self.memory,
            processes: self.processes@,
            networks: self.networks@,
            components: self.components@,
            users: self.users@,
            boot_time: self.boot_time,
            load_average: self.load_average,
        }
    }
}

/// What one full reading of the host holds.
pub struct Snapshot {
    /// The cumulative counters of each processor, in the order of the list.
    pub cpu: Vec<CpuTimes>,
    pub memory: MemorySample,
    pub processes: Vec<ProcessSample>,
    pub components: Vec<Component>,
}

/// The state in which nothing was read yet.
pub open spec fn empty_state() -> SystemView {
    SystemView {
        processors: seq![],
        memory: MemorySample { total_memory: 0, used_memory: 0, total_swap: 0, used_swap: 0 },
        processes: Map::empty(),
        networks: seq![],
        components: seq![],
        users: seq![],
        boot_time: None,
        load_average: LoadAvg { one: 0, five: 0, fifteen: 0 },
    }
}

/// What the system reported of its processors: their number, the vendor and
/// brand they share, and the nominal frequency of each core.
pub struct CpuInfo {
    pub count: u32,
    pub vendor_id: String,
    pub brand: String,
    pub frequencies: Vec<u64>,
}

/// Whether `list` is the list of processors that `info` describes: first the
/// processor that stands for all, `Total CPU`, then the cores, numbered from
/// one, each with its frequency; none has been sampled.
pub open spec fn is_processor_list(list: Seq<Processor>, info: CpuInfo) -> bool {
    &&& list.len() == info.count + 1
    &&& list[0].name@ == "Total CPU"@
    &&& list[0].frequency == 0
    &&& forall|i: int|
        0 <= i <= info.count ==> {
            &&& (#[trigger] list[i]).vendor_id == info.vendor_id
            &&& list[i].brand == info.brand
            &&& list[i].times is None
            &&& list[i].usage == (Usage { busy: 0, total: 0 })
        }
    &&& forall|nb: int|
        0 <= nb < info.count ==> {
            &&& (#[trigger] list[nb + 1]).name@ == processor_name(nb as nat)
            &&& list[nb + 1].frequency == info.frequencies[nb]
        }
}

/// The processors after a reading of their counters: each takes in the sample
/// at its own position; one for which the reading holds no sample stays as it
/// was.
pub open spec fn refreshed_processors(list: Seq<Processor>, samples: Seq<CpuTimes>) -> Seq<Processor> {
    Seq::new(
        list.len(),
        |i: int|
            if i < samples.len() {
                list[i].refreshed(samples[i])
            } else {
                list[i]
            },
    )
}

/// The reading of the system's clock that processes are measured against: the
/// total time of the first processor, zero before it was sampled.
pub open spec fn clock_of(processors: Seq<Processor>) -> u64 {
    if processors.len() > 0 && processors[0].times is Some {
        processors[0].times->0.total
    } else {
        0
    }
}

/// The state after a refresh of the processors.
pub open spec fn after_cpu(state: SystemView, samples: Seq<CpuTimes>) -> SystemView {
    SystemView { processors: refreshed_processors(state.processors, samples), ..state }
}

/// The state after a refresh of the memory.
pub open spec fn after_memory(state: SystemView, sample: MemorySample) -> SystemView {
    SystemView { memory: sample, ..state }
}

/// The state after a full refresh of the processes.
pub open spec fn after_processes(state: SystemView, samples: Seq<ProcessSample>) -> SystemView {
    SystemView {
        processes: refreshed_table(state.processes, samples, clock_of(state.processors)),
        ..state
    }
}

/// The state after a refresh of the single process `pid`.
pub open spec fn after_process(state: SystemView, pid: Pid, sample: Option<ProcessSample>) -> SystemView {
    match sample {
        Some(s) => if s.pid == pid {
            SystemView {
                processes: state.processes.insert(
                    pid,
                    observed(state.processes.get(pid), s, clock_of(state.processors)),
                ),
                ..state
            }
        } else {
            state
        },
        None => state,
    }
}

/// The state after a refresh of the sensors.
pub open spec fn after_components(state: SystemView, list: Seq<Component>) -> SystemView {
    SystemView { components: list, ..state }
}

/// The state after a refresh of the network interfaces.
pub open spec fn after_networks(state: SystemView, samples: Seq<NetworkSample>) -> SystemView {
    SystemView { networks: net_refreshed(state.networks, samples), ..state }
}

/// The state after a refresh of the users.
pub open spec fn after_users(state: SystemView, list: Seq<User>) -> SystemView {
    SystemView { users: list, ..state }
}

/// The state after a refresh of everything: processors first, then memory,
/// then processes, which are thereby measured against the clock just read,
/// then sensors.
pub open spec fn after_all(
    state: SystemView,
    cpu: Seq<CpuTimes>,
    memory: MemorySample,
    processes: Seq<ProcessSample>,
    components: Seq<Component>,
) -> SystemView {
    after_components(
        after_processes(after_memory(after_cpu(state, cpu), memory), processes),
        components,
    )
}

/// The time the host has been up at the moment `now`, in seconds: nothing
/// while the start is unknown or lies after `now`.
pub open spec fn uptime_of(boot_time: Option<u64>, now: u64) -> u64 {
    match boot_time {
        Some(start) => if start <= now {
            (now - start) as u64
        } else {
            0
        },
        None => 0,
    }
}

impl System {
    /// A state in which nothing was read yet.
    pub fn new() -> (system: System)
        ensures
            system@ == empty_state(),
    {
        System {
            processors: Vec::new(),
            memory: MemorySample::empty(),
            processes: ProcessTable::new(),
            networks: Networks::new(),
            components: Vec::new(),
            users: Vec::new(),
            boot_time: None,
            load_average: LoadAvg { one: 0, five: 0, fifteen: 0 },
        }
    }

    /// A state after the processors were set up and one full reading of the
    /// host was taken in. Where the system could not even tell its processors,
    /// `info` is `None`, and the state is the empty one.
    pub fn new_all(info: Option<CpuInfo>, snapshot: Snapshot) -> (system: System)
        requires
            info matches Some(i) ==> i.count <= i.frequencies.len(),
        ensures
            info is None ==> system@ == empty_state(),
            info matches Some(i) ==> exists|list: Seq<Processor>|
                is_processor_list(list, i) && system@ == after_all(
                    SystemView { processors: list, ..empty_state() },
                    snapshot.cpu@,
                    snapshot.memory,
                    snapshot.processes@,
                    snapshot.components@,
                ),
    {
        let mut system: System = System::new();
        match info {
            Some(info) => {
                system.init_cpu(info);
                let ghost list = system@.processors;
                assert(system@ == (SystemView { processors: list, ..empty_state() }));
                system.refresh_all(snapshot);
            },
            None => {},
        }
        system
    }

    /// Sets up the processors from what the system reported of them.
    pub fn init_cpu(&mut self, info: CpuInfo)
        requires
            info.count <= info.frequencies.len(),
        ensures
            is_processor_list(final(self)@.processors, info),
            final(self)@ == (SystemView { processors: final(self)@.processors, ..old(self)@ }),
    {
        let ghost described = info;
        let CpuInfo { count, vendor_id, brand, frequencies } = info;
        let (mut cores, vendor_id, brand) = init_processors(count, vendor_id, brand, &frequencies);
        let ghost listed = cores@;
        let mut list: Vec<Processor> = Vec::new();
        list.push(Processor::new_with_values("Total CPU".to_owned(), vendor_id, brand, 0));
        list.append(&mut cores);
        proof {
            assert forall|nb: int| 0 <= nb < count implies (#[trigger] list@[nb + 1])
                == listed[nb] by {}
            assert forall|i: int| 0 <= i <= count implies {
                &&& (#[trigger] list@[i]).vendor_id == vendor_id
                &&& list@[i].brand == brand
                &&& list@[i].times is None
                &&& list@[i].usage == (Usage { busy: 0, total: 0 })
            } by {
                if i > 0 {
                    assert(list@[(i - 1) + 1] == listed[i - 1]);
                }
            }
            assert(is_processor_list(list@, described));
        }
        self.processors = list;
    }

    /// Takes in one full reading of the host.
    pub fn refresh_all(&mut self, snapshot: Snapshot)
        ensures
            final(self)@ == after_all(
                old(self)@,
                snapshot.cpu@,
                snapshot.memory,
                snapshot.processes@,
                snapshot.components@,
            ),
    {
        let Snapshot { cpu, memory, processes, components } = snapshot;
        self.refresh_cpu(&cpu);
        self.refresh_memory(memory);
        self.refresh_processes(processes);
        self.refresh_components(components);
    }

    /// Takes in a reading of the processors' counters.
    pub fn refresh_cpu(&mut self, samples: &Vec<CpuTimes>)
        ensures
            final(self)@ == after_cpu(old(self)@, samples@),
    {
        let mut list: Vec<Processor> = Vec::new();
        std::mem::swap(&mut self.processors, &mut list);
        let ghost before = list@;
        let count: usize = list.len();
        let mut fresh: Vec<Processor> = Vec::new();
        let mut i: usize = 0;
        for processor in it: list
            invariant
                it.seq() == before,
                before.len() == count,
                i == it.index(),
                fresh@ == refreshed_processors(before, samples@).take(i as int),
        {
            let mut processor: Processor = processor;
            if i < samples.len() {
                processor.refresh(samples[i]);
            }
            fresh.push(processor);
            assert(fresh@ =~= refreshed_processors(before, samples@).take(i + 1));
            i += 1;
        }
        assert(fresh@ =~= refreshed_processors(before, samples@));
        self.processors = fresh;
    }

    /// Takes in a reading of memory and swap.
    pub fn refresh_memory(&mut self, sample: MemorySample)
        ensures
            final(self)@ == after_memory(old(self)@, sample),
    {
        self.memory = sample;
    }

    /// Takes in a full enumeration of the processes: the table then holds the
    /// observed processes and no others.
    pub fn refresh_processes(&mut self, samples: Vec<ProcessSample>)
        ensures
            final(self)@ == after_processes(old(self)@, samples@),
    {
        let clock: u64 = self.clock();
        self.processes.refresh(samples, clock);
    }

    /// Takes in the observation of the single process `pid`, `None` where it
    /// is gone, and returns whether it is still there. No other record is
    /// touched, and a process that is gone keeps its record.
    pub fn refresh_process(&mut self, pid: Pid, sample: Option<ProcessSample>) -> (alive: bool)
        ensures
            alive == (sample matches Some(s) && s.pid == pid),
            final(self)@ == after_process(old(self)@, pid, sample),
            alive ==> final(self)@.processes.contains_key(pid),
    {
        let clock: u64 = self.clock();
        self.processes.refresh_one(pid, sample, clock)
    }

    /// Takes in a reading of the sensors, which replaces the list.
    pub fn refresh_components(&mut self, list: Vec<Component>)
        ensures
            final(self)@ == after_components(old(self)@, list@),
    {
        self.components = list;
    }

    /// Takes in a reading of the network interfaces.
    pub fn refresh_networks(&mut self, samples: Vec<NetworkSample>)
        ensures
            final(self)@ == after_networks(old(self)@, samples@),
    {
        self.networks.refresh(samples);
    }

    /// Takes in a reading of the users, which replaces the list.
    pub fn refresh_users_list(&mut self, list: Vec<User>)
        ensures
            final(self)@ == after_users(old(self)@, list@),
    {
        self.users = list;
    }

    /// The reading of the system's clock that processes are measured against.
    pub fn clock(&self) -> (clock: u64)
        ensures
            clock == clock_of(self@.processors),
    {
        if self.processors.len() > 0 {
            match self.processors[0].times {
                Some(times) => times.total,
                None => 0,
            }
        } else {
            0
        }
    }

    /// Records when the host started. The first reading stands: a later one
    /// changes nothing.
    pub fn set_boot_time(&mut self, start: u64)
        ensures
            final(self)@ == (SystemView {
                boot_time: match old(self)@.boot_time {
                    Some(known) => Some(known),
                    None => Some(start),
                },
                ..old(self)@
            }),
    {
        if self.boot_time.is_none() {
            self.boot_time = Some(start);
        }
    }

    /// Records the load averages.
    pub fn set_load_average(&mut self, load: LoadAvg)
        ensures
            final(self)@ == (SystemView { load_average: load, ..old(self)@ }),
    {
        self.load_average = load;
    }

    /// The record of the process `pid`.
    pub fn get_process(&self, pid: Pid) -> (record: Option<&Process>)
        ensures
            match record {
                Some(p) => self@.processes.contains_key(pid) && *p == self@.processes[pid]
                    && p.info.pid == pid,
                None => !self@.processes.contains_key(pid),
            },
    {
        self.processes.get(pid)
    }

    /// The identifiers of the processes whose name holds `name`, each once, in
    /// no particular order.
    pub fn get_process_by_name(&self, name: &str) -> (found: Vec<Pid>)
        ensures
            found@.no_duplicates(),
            forall|pid: Pid|
                found@.contains(pid) <==> self@.processes.contains_key(pid) && has_run(
                    self@.processes[pid].info.name@,
                    name@,
                ),
    {
        self.processes.by_name(name)
    }

    /// The table of processes.
    pub fn get_processes(&self) -> (table: &ProcessTable)
        ensures
            table@ == self@.processes,
    {
        &self.processes
    }

    /// The processors: first the one that stands for all, then the cores.
    pub fn get_processors(&self) -> (list: &Vec<Processor>)
        ensures
            list@ == self@.processors,
    {
        &self.processors
    }

    /// The network interfaces.
    pub fn get_networks(&self) -> (table: &Networks)
        ensures
            table@ == self@.networks,
    {
        &self.networks
    }

    /// The sensors.
    pub fn get_components(&self) -> (list: &Vec<Component>)
        ensures
            list@ == self@.components,
    {
        &self.components
    }

    /// The users.
    pub fn get_users(&self) -> (list: &Vec<User>)
        ensures
            list@ == self@.users,
    {
        &self.users
    }

    pub fn get_total_memory(&self) -> (kb: u64)
        ensures
            kb == self@.memory.total_memory,
    {
        self.memory.total_memory
    }

    pub fn get_used_memory(&self) -> (kb: u64)
        ensures
            kb == self@.memory.used_memory,
    {
        self.memory.used_memory
    }

    pub fn get_total_swap(&self) -> (kb: u64)
        ensures
            kb == self@.memory.total_swap,
    {
        self.memory.total_swap
    }

    pub fn get_used_swap(&self) -> (kb: u64)
        ensures
            kb == self@.memory.used_swap,
    {
        self.memory.used_swap
    }

    pub fn get_load_average(&self) -> (load: LoadAvg)
        ensures
            load == self@.load_average,
    {
        self.load_average
    }

    pub fn get_boot_time(&self) -> (start: Option<u64>)
        ensures
            start == self@.boot_time,
    {
        self.boot_time
    }

    /// The time the host has been up at the moment `now`, in seconds since the
    /// epoch.
    pub fn get_uptime(&self, now: u64) -> (seconds: u64)
        ensures
            seconds == uptime_of(self@.boot_time, now),
    {
        match self.boot_time {
            Some(start) => if start <= now {
                now - start
            } else {
                0
            },
            None => 0,
        }
    }

    /// Decides what is to be done about a request to send the signal numbered
    /// `number` to the process `pid`: a number that names no signal is refused
    /// before anything else is looked at.
    pub fn signal_request(&self, pid: Pid, number: i32) -> (request: SignalRequest)
        ensures
            request == signal_request_of(self@.processes, pid, number as int),
            !(1 <= number <= 31) ==> request == SignalRequest::InvalidSignal,
    {
        self.processes.signal_request(pid, number)
    }
}

/// A full refresh that observes at least one process leaves a table that is
/// not empty, whatever the state was before.
pub proof fn lemma_processes_found(state: SystemView, samples: Seq<ProcessSample>)
    requires
        samples.len() > 0,
    ensures
        after_processes(state, samples).processes.len() > 0,
{
    lemma_refreshed_table_not_empty(state.processes, samples, clock_of(state.processors));
}

/// After a full refresh the table holds a process exactly if the refresh
/// observed it: a process that was known and is no longer observed is gone. A
/// refresh of a single process that finds it gone changes nothing.
pub proof fn lemma_process_lifecycle(state: SystemView, samples: Seq<ProcessSample>, pid: Pid)
    ensures
        after_processes(state, samples).processes.contains_key(pid) <==> observes(samples, pid),
        after_process(state, pid, None) == state,
{
    lemma_refreshed_table_domain(state.processes, samples, clock_of(state.processors), pid);
}

/// After a refresh of a single process that found it, the table holds the
/// process, and every other process is as it was.
pub proof fn lemma_process_refreshed(state: SystemView, sample: ProcessSample, other: Pid)
    ensures
        after_process(state, sample.pid, Some(sample)).processes.contains_key(sample.pid),
        other != sample.pid ==> after_process(state, sample.pid, Some(sample)).processes.get(other)
            == state.processes.get(other),
{
}

/// Taking in the same reading twice is the same as taking it in once, for the
/// processors, the memory, the sensors and the users.
pub proof fn lemma_refresh_idempotent(
    state: SystemView,
    cpu: Seq<CpuTimes>,
    memory: MemorySample,
    components: Seq<Component>,
    users: Seq<User>,
)
    ensures
        after_cpu(after_cpu(state, cpu), cpu) == after_cpu(state, cpu),
        after_memory(after_memory(state, memory), memory) == after_memory(state, memory),
        after_components(after_components(state, components), components) == after_components(
            state,
            components,
        ),
        after_users(after_users(state, users), users) == after_users(state, users),
{
    let once = refreshed_processors(state.processors, cpu);
    let twice = refreshed_processors(once, cpu);
    assert(twice =~= once);
}

/// Each narrow refresh changes its own part of the state and nothing else.
pub proof fn lemma_refresh_frames(
    state: SystemView,
    cpu: Seq<CpuTimes>,
    memory: MemorySample,
    processes: Seq<ProcessSample>,
    networks: Seq<NetworkSample>,
    components: Seq<Component>,
    users: Seq<User>,
)
    ensures
        after_cpu(state, cpu) == (SystemView {
            processors: after_cpu(state, cpu).processors,
            ..state
        }),
        after_memory(state, memory) == (SystemView { memory, ..state }),
        after_processes(state, processes) == (SystemView {
            processes: after_processes(state, processes).processes,
            ..state
        }),
        after_networks(state, networks) == (SystemView {
            networks: after_networks(state, networks).networks,
            ..state
        }),
        after_components(state, components) == (SystemView { components, ..state }),
        after_users(state, users) == (SystemView { users, ..state }),
{
}

} // verus!
