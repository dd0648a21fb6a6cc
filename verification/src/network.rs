//! Network interfaces: cumulative counters and what passed since the last
//! refresh.

use vstd::prelude::*;
use crate::delta::{counter_delta, delta_of};

verus! {

/// The cumulative counters of one interface.
#[derive(Clone, Copy, Debug, PartialEq, Eq, Structural)]
pub struct NetworkCounters {
    pub received: u64,
    pub transmitted: u64,
    pub packets_received: u64,
    pub packets_transmitted: u64,
}

/// One observation of one interface.
#[derive(Clone, Debug, PartialEq, Eq)]
pub struct NetworkSample {
    pub name: String,
    pub counters: NetworkCounters,
}

/// The record of one interface: its name, its counters as last read, and
/// their growth between the two most recent readings.
#[derive(Clone, Debug, PartialEq, Eq)]
pub struct NetworkData {
    pub name: String,
    pub current: NetworkCounters,
    pub delta: NetworkCounters,
}

/// The growth of each counter from `previous` to `current`; a counter that
/// went down counts as no growth.
pub open spec fn growth_of(previous: NetworkCounters, current: NetworkCounters) -> NetworkCounters {
    NetworkCounters {
        received: delta_of(previous.received, current.received),
        transmitted: delta_of(previous.transmitted, current.transmitted),
        packets_received: delta_of(previous.packets_received, current.packets_received),
        packets_transmitted: delta_of(previous.packets_transmitted, current.packets_transmitted),
    }
}

/// Counters that are all zero.
pub open spec fn no_traffic() -> NetworkCounters {
    NetworkCounters { received: 0, transmitted: 0, packets_received: 0, packets_transmitted: 0 }
}

/// The record of an interface after it was observed as `sample`. `previous`
/// holds the counters of its record before, if it had one. An interface seen
/// for the first time reports no traffic.
pub open spec fn net_observed(previous: Option<NetworkCounters>, sample: NetworkSample) -> NetworkData {
    NetworkData {
        name: sample.name,
        current: sample.counters,
        delta: match previous {
            Some(p) => growth_of(p, sample.counters),
            None => no_traffic(),
        },
    }
}

/// Computes `growth_of`.
pub fn counters_growth(previous: &NetworkCounters, current: &NetworkCounters) -> (growth:
    NetworkCounters)
    ensures
        growth == growth_of(*previous, *current),
{
    NetworkCounters {
        received: counter_delta(previous.received, current.received),
        transmitted: counter_delta(previous.transmitted, current.transmitted),
        packets_received: counter_delta(previous.packets_received, current.packets_received),
        packets_transmitted: counter_delta(
            previous.packets_transmitted,
            current.packets_transmitted,
        ),
    }
}

impl NetworkData {
    /// Computes `net_observed`.
    pub fn observe(previous: Option<NetworkCounters>, sample: NetworkSample) -> (record: NetworkData)
        ensures
            record == net_observed(previous, sample),
    {
        let delta: NetworkCounters = match previous {
            Some(p) => counters_growth(&p, &sample.counters),
            None => NetworkCounters {
                received: 0,
                transmitted: 0,
                packets_received: 0,
                packets_transmitted: 0,
            },
        };
        NetworkData { name: sample.name, current: sample.counters, delta }
    }

    pub fn name(&self) -> (s: &str)
        ensures
            s@ == self.name@,
    {
        self.name.as_str()
    }

    /// Bytes received since the previous refresh.
    pub fn income(&self) -> (bytes: u64)
        ensures
            bytes == self.delta.received,
    {
        self.delta.received
    }

    /// Bytes sent since the previous refresh.
    pub fn outcome(&self) -> (bytes: u64)
        ensures
            bytes == self.delta.transmitted,
    {
        self.delta.transmitted
    }

    /// Bytes received in all.
    pub fn total_income(&self) -> (bytes: u64)
        ensures
            bytes == self.current.received,
    {
        self.current.received
    }

    /// Bytes sent in all.
    pub fn total_outcome(&self) -> (bytes: u64)
        ensures
            bytes == self.current.transmitted,
    {
        self.current.transmitted
    }
}

/// Two refreshes between which nothing moved report no traffic; where the
/// counters only grew, the report is the later reading minus the earlier.
pub proof fn lemma_network_delta(
    before: Option<NetworkCounters>,
    first: NetworkSample,
    second: NetworkSample,
)
    ensures
        second.counters == first.counters ==> net_observed(
            Some(net_observed(before, first).current),
            second,
        ).delta == no_traffic(),
        first.counters.received <= second.counters.received ==> net_observed(
            Some(net_observed(before, first).current),
            second,
        ).delta.received == second.counters.received - first.counters.received,
        first.counters.transmitted <= second.counters.transmitted ==> net_observed(
            Some(net_observed(before, first).current),
            second,
        ).delta.transmitted == second.counters.transmitted - first.counters.transmitted,
        first.counters.packets_received <= second.counters.packets_received ==> net_observed(
            Some(net_observed(before, first).current),
            second,
        ).delta.packets_received == second.counters.packets_received
            - first.counters.packets_received,
        first.counters.packets_transmitted <= second.counters.packets_transmitted ==> net_observed(
            Some(net_observed(before, first).current),
            second,
        ).delta.packets_transmitted == second.counters.packets_transmitted
            - first.counters.packets_transmitted,
        first.counters.received > second.counters.received ==> net_observed(
            Some(net_observed(before, first).current),
            second,
        ).delta.received == 0,
{
}

// ---------------------------------------------------------------------------
// The table
// ---------------------------------------------------------------------------

/// The number of records of `list` that stand before the first one named
/// `name`: the position of that record, or the length of `list` where no
/// record has the name.
pub open spec fn position_of(list: Seq<NetworkData>, name: Seq<char>) -> nat
    decreases list.len(),
{
    if list.len() == 0 || list[0].name@ == name {
        0
    } else {
        1 + position_of(list.drop_first(), name)
    }
}

/// The counters of the record named `name`, if `list` holds one.
pub open spec fn counters_of(list: Seq<NetworkData>, name: Seq<char>) -> Option<NetworkCounters> {
    if position_of(list, name) < list.len() {
        Some(list[position_of(list, name) as int].current)
    } else {
        None
    }
}

/// `list` with `record` in the place of the record of the same name, or at
/// the end where there is none.
pub open spec fn upserted(list: Seq<NetworkData>, record: NetworkData) -> Seq<NetworkData> {
    if position_of(list, record.name@) < list.len() {
        list.update(position_of(list, record.name@) as int, record)
    } else {
        list.push(record)
    }
}

/// The table after a refresh that observed `samples`, in the order in which
/// they were read. It holds the observed interfaces and no others, in the
/// order in which each was first read; each record is measured against the
/// record that `before` held under the name. Where one name was observed
/// twice, the later observation stands.
pub open spec fn net_refreshed(before: Seq<NetworkData>, samples: Seq<NetworkSample>) -> Seq<
    NetworkData,
>
    decreases samples.len(),
{
    if samples.len() == 0 {
        seq![]
    } else {
        let sample = samples.last();
        upserted(
            net_refreshed(before, samples.drop_last()),
            net_observed(counters_of(before, sample.name@), sample),
        )
    }
}

/// Whether no two records of `list` share a name.
pub open spec fn distinct_names(list: Seq<NetworkData>) -> bool {
    forall|i: int, j: int|
        0 <= i < j < list.len() ==> (#[trigger] list[i]).name@ != (#[trigger] list[j]).name@
}

/// What `position_of` finds: the first record with the name.
pub proof fn lemma_position_of(list: Seq<NetworkData>, name: Seq<char>)
    ensures
        position_of(list, name) <= list.len(),
        position_of(list, name) < list.len() ==> list[position_of(list, name) as int].name@ == name,
        forall|i: int| 0 <= i < position_of(list, name) ==> (#[trigger] list[i]).name@ != name,
    decreases list.len(),
{
    if !(list.len() == 0 || list[0].name@ == name) {
        let rest = list.drop_first();
        lemma_position_of(rest, name);
        assert forall|i: int| 0 <= i < position_of(list, name) implies (#[trigger] list[i]).name@
            != name by {
            if i > 0 {
                assert(rest[i - 1] == list[i]);
            }
        }
    }
}

proof fn lemma_position_found(list: Seq<NetworkData>, name: Seq<char>, k: int)
    requires
        0 <= k <= list.len(),
        forall|i: int| 0 <= i < k ==> (#[trigger] list[i]).name@ != name,
        k == list.len() || list[k].name@ == name,
    ensures
        position_of(list, name) == k,
    decreases k,
{
    if k > 0 {
        let rest = list.drop_first();
        assert forall|i: int| 0 <= i < k - 1 implies (#[trigger] rest[i]).name@ != name by {
            assert(rest[i] == list[i + 1]);
        }
        lemma_position_found(rest, name, k - 1);
    }
}

/// Putting a record into a list without repeated names leaves none.
pub proof fn lemma_upserted_distinct(list: Seq<NetworkData>, record: NetworkData)
    requires
        distinct_names(list),
    ensures
        distinct_names(upserted(list, record)),
{
    lemma_position_of(list, record.name@);
    let k = position_of(list, record.name@) as int;
    let after = upserted(list, record);
    assert forall|i: int, j: int| 0 <= i < j < after.len() implies (#[trigger] after[i]).name@ != (
    #[trigger] after[j]).name@ by {
        if k < list.len() {
            if i == k {
                assert(list[k].name@ != list[j].name@);
            } else if j == k {
                assert(list[i].name@ != list[k].name@);
            } else {
                assert(list[i].name@ != list[j].name@);
            }
        } else {
            if j == list.len() {
                assert(list[i].name@ != record.name@);
            } else {
                assert(list[i].name@ != list[j].name@);
            }
        }
    }
}

/// The table of a refresh never holds a name twice.
pub proof fn lemma_net_refreshed_distinct(before: Seq<NetworkData>, samples: Seq<NetworkSample>)
    ensures
        distinct_names(net_refreshed(before, samples)),
    decreases samples.len(),
{
    if samples.len() > 0 {
        lemma_net_refreshed_distinct(before, samples.drop_last());
        lemma_upserted_distinct(
            net_refreshed(before, samples.drop_last()),
            net_observed(counters_of(before, samples.last().name@), samples.last()),
        );
    }
}

/// The network interfaces of the system.
pub struct Networks {
    list: Vec<NetworkData>,
}

impl View for Networks {
    type V = Seq<NetworkData>;

    closed spec fn view(&self) -> Seq<NetworkData> {
        self.list@
    }
}

/// The position in `list` of the record named `name`.
fn find(list: &Vec<NetworkData>, name: &String) -> (at: usize)
    ensures
        at == position_of(list@, name@),
        at <= list.len(),
{
    let n: usize = list.len();
    let mut at: usize = 0;
    while at < n
        invariant
            at <= n,
            n == list.len(),
            forall|i: int| 0 <= i < at ==> (#[trigger] list@[i]).name@ != name@,
        decreases n - at,
    {
        if list[at].name == *name {
            proof {
                lemma_position_found(list@, name@, at as int);
            }
            return at;
        }
        at += 1;
    }
    proof {
        lemma_position_found(list@, name@, at as int);
    }
    at
}

impl Networks {
    #[verifier::type_invariant]
    spec fn well_formed(self) -> bool {
        distinct_names(self.list@)
    }

    /// A table without interfaces.
    pub fn new() -> (table: Networks)
        ensures
            table@ == Seq::<NetworkData>::empty(),
    {
        Networks { list: Vec::new() }
    }

    /// The number of interfaces.
    pub fn len(&self) -> (n: usize)
        ensures
            n == self@.len(),
    {
        self.list.len()
    }

    /// The records, in the order in which the interfaces were first read.
    pub fn interfaces(&self) -> (list: &Vec<NetworkData>)
        ensures
            list@ == self@,
            distinct_names(list@),
    {
        proof {
            use_type_invariant(self);
        }
        &self.list
    }

    /// The record of the interface `name`.
    pub fn get(&self, name: &str) -> (record: Option<&NetworkData>)
        ensures
            match record {
                Some(r) => position_of(self@, name@) < self@.len() && *r == self@[position_of(
                    self@,
                    name@,
                ) as int] && r.name@ == name@,
                None => position_of(self@, name@) == self@.len(),
            },
    {
        let wanted: String = name.to_owned();
        let at: usize = find(&self.list, &wanted);
        proof {
            lemma_position_of(self.list@, name@);
        }
        if at < self.list.len() {
            Some(&self.list[at])
        } else {
            None
        }
    }

    /// Replaces the table by what an enumeration of the interfaces observed.
    pub fn refresh(&mut self, samples: Vec<NetworkSample>)
        ensures
            final(self)@ == net_refreshed(old(self)@, samples@),
    {
        let mut fresh: Vec<NetworkData> = Vec::new();
        for sample in it: samples
            invariant
                it.seq() == samples@,
                fresh@ == net_refreshed(self.list@, samples@.take(it.index() as int)),
        {
            proof {
                let upto = samples@.take(it.index() + 1);
                assert(upto.drop_last() =~= samples@.take(it.index() as int));
                assert(upto.last() == sample);
                lemma_position_of(self.list@, sample.name@);
            }
            let known: usize = find(&self.list, &sample.name);
            let previous: Option<NetworkCounters> = if known < self.list.len() {
                Some(self.list[known].current)
            } else {
                None
            };
            let record: NetworkData = NetworkData::observe(previous, sample);
            let at: usize = find(&fresh, &record.name);
            if at < fresh.len() {
                fresh.set(at, record);
            } else {
                fresh.push(record);
            }
        }
        proof {
            assert(samples@.take(samples@.len() as int) =~= samples@);
            lemma_net_refreshed_distinct(self.list@, samples@);
        }
        self.list = fresh;
    }
}

} // verus!
