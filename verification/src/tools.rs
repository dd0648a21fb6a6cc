//! Counter resolution: the table of counter names, the paths handed to the
//! live-query interface and the keys kept for polling.

use vstd::prelude::*;
use std::collections::HashMap;
use vstd::hash_map::StringHashMap;
use vstd::slice::{slice_subrange, slice_to_vec};
use vstd::utf8::{decode_utf8, valid_utf8};
use crate::delta::Usage;
use crate::processor::Processor;
use crate::text::{
    decimal_text, decode_utf16, encode_utf16, parse_index, parsed_index, push_decimal,
    string_from_utf8, utf16_text, utf16_units,
};

verus! {

/// The key kept for a counter that was added to a query: the name it was
/// registered under and the NUL-terminated wide path that opened it.
pub struct KeyHandler {
    pub unique_id: String,
    pub win_key: Vec<u16>,
}

impl KeyHandler {
    /// The key of the counter registered under `unique_id` and opened by the
    /// path `win_key`.
    pub fn new(unique_id: String, win_key: Vec<u16>) -> (key: KeyHandler)
        ensures
            key.unique_id == unique_id,
            key.win_key == win_key,
    {
        KeyHandler { unique_id, win_key }
    }
}

// ---------------------------------------------------------------------------
// The processor list
// ---------------------------------------------------------------------------

/// The name of the processor at position `nb` of the list of cores: cores are
/// numbered from one.
pub open spec fn processor_name(nb: nat) -> Seq<char> {
    "CPU "@ + decimal_text(nb + 1)
}

/// Builds the list of cores from what the system reported: their number, the
/// vendor and brand they share, and the nominal frequency of each. Returns the
/// list with the vendor and the brand.
pub fn init_processors(count: u32, vendor_id: String, brand: String, frequencies: &Vec<u64>) -> (ret:
    (Vec<Processor>, String, String))
    requires
        count <= frequencies.len(),
    ensures
        ret.0.len() == count,
        forall|nb: int|
            0 <= nb < count ==> {
                &&& (#[trigger] ret.0[nb]).name@ == processor_name(nb as nat)
                &&& ret.0[nb].vendor_id == vendor_id
                &&& ret.0[nb].brand == brand
                &&& ret.0[nb].frequency == frequencies[nb]
                &&& ret.0[nb].times is None
                &&& ret.0[nb].usage == (Usage { busy: 0, total: 0 })
            },
        ret.1 == vendor_id,
        ret.2 == brand,
{
    let mut list: Vec<Processor> = Vec::new();
    let mut nb: u32 = 0;
    while nb < count
        invariant
            nb <= count <= frequencies.len(),
            list.len() == nb,
            forall|k: int|
                0 <= k < nb ==> {
                    &&& (#[trigger] list[k]).name@ == processor_name(k as nat)
                    &&& list[k].vendor_id == vendor_id
                    &&& list[k].brand == brand
                    &&& list[k].frequency == frequencies[k]
                    &&& list[k].times is None
                    &&& list[k].usage == (Usage { busy: 0, total: 0 })
                },
        decreases count - nb,
    {
        let mut name: String = "CPU ".to_owned();
        push_decimal(&mut name, nb + 1);
        list.push(
            Processor::new_with_values(
                name,
                vendor_id.clone(),
                brand.clone(),
                frequencies[nb as usize],
            ),
        );
        nb += 1;
    }
    (list, vendor_id, brand)
}

// ---------------------------------------------------------------------------
// The table of counter names
// ---------------------------------------------------------------------------

/// The number of bytes of `s` before its first NUL; the length of `s` where it
/// holds none.
pub open spec fn first_nul(s: Seq<u8>) -> nat
    decreases s.len(),
{
    if s.len() == 0 || s[0] == 0 {
        0
    } else {
        1 + first_nul(s.drop_first())
    }
}

/// The fragments of a block of NUL-terminated strings: its maximal runs of
/// bytes other than NUL, in order. Empty strings leave no fragment.
pub open spec fn fragments(s: Seq<u8>) -> Seq<Seq<u8>>
    decreases s.len(),
{
    if s.len() == 0 {
        seq![]
    } else {
        let k = first_nul(s) as int;
        let rest = if k < s.len() {
            fragments(s.skip(k + 1))
        } else {
            seq![]
        };
        if k == 0 {
            rest
        } else {
            seq![s.take(k)] + rest
        }
    }
}

/// The table after the first `pairs` pairs of fragments were read. Fragments
/// go in pairs, an index and then a name; a pair counts only if its first
/// fragment writes an index and its second is well-formed UTF-8. A name that
/// comes again takes the later index.
pub open spec fn table_of_pairs(frags: Seq<Seq<u8>>, pairs: nat) -> Map<Seq<char>, u32>
    decreases pairs,
{
    if pairs == 0 {
        Map::empty()
    } else {
        let earlier = table_of_pairs(frags, (pairs - 1) as nat);
        let index = parsed_index(frags[2 * pairs - 2]);
        let name = frags[2 * pairs - 1];
        if index is Some && valid_utf8(name) {
            earlier.insert(decode_utf8(name), index->0)
        } else {
            earlier
        }
    }
}

/// The table of counter names that a block of NUL-terminated strings holds:
/// every complete pair of fragments is read, a fragment left over at the end
/// is not.
pub open spec fn symbol_table(blob: Seq<u8>) -> Map<Seq<char>, u32> {
    table_of_pairs(fragments(blob), fragments(blob).len() / 2)
}

/// The names by index after the first `pairs` pairs of fragments were read:
/// the same pairs count as for `table_of_pairs`, and an index that comes again
/// takes the later name.
pub open spec fn names_of_pairs(frags: Seq<Seq<u8>>, pairs: nat) -> Map<u32, Seq<char>>
    decreases pairs,
{
    if pairs == 0 {
        Map::empty()
    } else {
        let earlier = names_of_pairs(frags, (pairs - 1) as nat);
        let index = parsed_index(frags[2 * pairs - 2]);
        let name = frags[2 * pairs - 1];
        if index is Some && valid_utf8(name) {
            earlier.insert(index->0, decode_utf8(name))
        } else {
            earlier
        }
    }
}

/// The names by index that a block of NUL-terminated strings holds.
pub open spec fn name_table(blob: Seq<u8>) -> Map<u32, Seq<char>> {
    names_of_pairs(fragments(blob), fragments(blob).len() / 2)
}

/// A map of strings as a map of texts.
pub open spec fn texts_of(names: Map<u32, String>) -> Map<u32, Seq<char>> {
    Map::new(|index: u32| names.contains_key(index), |index: u32| names[index]@)
}

/// The byte runs that `spans` cut out of `s`.
pub open spec fn spans_of(s: Seq<u8>, spans: Seq<(usize, usize)>) -> Seq<Seq<u8>> {
    Seq::new(spans.len(), |i: int| s.subrange(spans[i].0 as int, spans[i].1 as int))
}

proof fn lemma_first_nul(t: Seq<u8>, k: int)
    requires
        0 <= k <= t.len(),
        forall|j: int| 0 <= j < k ==> t[j] != 0,
        k == t.len() || t[k] == 0,
    ensures
        first_nul(t) == k,
    decreases k,
{
    if k > 0 {
        lemma_first_nul(t.drop_first(), k - 1);
    }
}

proof fn lemma_first_nul_bounds(t: Seq<u8>)
    ensures
        first_nul(t) <= t.len(),
        forall|j: int| 0 <= j < first_nul(t) ==> t[j] != 0,
    decreases t.len(),
{
    if !(t.len() == 0 || t[0] == 0) {
        let rest = t.drop_first();
        lemma_first_nul_bounds(rest);
        assert forall|j: int| 0 <= j < first_nul(t) implies t[j] != 0 by {
            if j > 0 {
                assert(rest[j - 1] == t[j]);
            }
        }
    }
}

/// No fragment is empty, and none holds a NUL.
pub proof fn lemma_fragments_hold_text(s: Seq<u8>, i: int)
    requires
        0 <= i < fragments(s).len(),
    ensures
        fragments(s)[i].len() > 0,
        forall|j: int| 0 <= j < fragments(s)[i].len() ==> fragments(s)[i][j] != 0,
    decreases s.len(),
{
    lemma_first_nul_bounds(s);
    let k = first_nul(s) as int;
    if k < s.len() {
        if k == 0 {
            lemma_fragments_hold_text(s.skip(k + 1), i);
        } else if i > 0 {
            lemma_fragments_hold_text(s.skip(k + 1), i - 1);
        }
    }
}

/// Finds the fragments of `blob`: the bounds of each, first byte and one past
/// the last.
pub fn fragment_spans(blob: &[u8]) -> (spans: Vec<(usize, usize)>)
    ensures
        spans_of(blob@, spans@) == fragments(blob@),
        forall|i: int|
            0 <= i < spans.len() ==> (#[trigger] spans[i]).0 < spans[i].1 <= blob@.len(),
{
    let n: usize = blob.len();
    let mut spans: Vec<(usize, usize)> = Vec::new();
    let mut pos: usize = 0;
    assert(blob@.skip(0) =~= blob@);
    assert(spans_of(blob@, spans@) + fragments(blob@) =~= fragments(blob@));
    while pos < n
        invariant
            pos <= n,
            n == blob@.len(),
            fragments(blob@) == spans_of(blob@, spans@) + fragments(blob@.skip(pos as int)),
            forall|i: int|
                0 <= i < spans.len() ==> (#[trigger] spans[i]).0 < spans[i].1 <= blob@.len(),
        decreases n - pos,
    {
        let mut end: usize = pos;
        while end < n && blob[end] != 0
            invariant
                pos <= end <= n,
                n == blob@.len(),
                forall|j: int| pos <= j < end ==> blob@[j] != 0,
            decreases n - end,
        {
            end += 1;
        }
        let ghost tail = blob@.skip(pos as int);
        let ghost before = spans@;
        proof {
            lemma_first_nul(tail, end - pos);
            assert(tail.take(end - pos) =~= blob@.subrange(pos as int, end as int));
            if end < n {
                assert(tail.skip(end - pos + 1) =~= blob@.skip(end + 1));
            }
        }
        if end > pos {
            spans.push((pos, end));
            assert(spans_of(blob@, spans@) =~= spans_of(blob@, before) + seq![
                blob@.subrange(pos as int, end as int),
            ]);
        }
        if end < n {
            pos = end + 1;
        } else {
            pos = n;
            assert(blob@.skip(n as int).len() == 0);
        }
        assert(fragments(blob@) =~= spans_of(blob@, spans@) + fragments(blob@.skip(pos as int)));
    }
    assert(spans_of(blob@, spans@) + fragments(blob@.skip(pos as int)) =~= spans_of(
        blob@,
        spans@,
    ));
    spans
}

/// Reads the table of counter names out of the block that the system keeps
/// them in.
pub fn load_symbols(blob: &[u8]) -> (table: StringHashMap<u32>)
    ensures
        table@ == symbol_table(blob@),
{
    let spans: Vec<(usize, usize)> = fragment_spans(blob);
    let ghost frags = fragments(blob@);
    let mut table: StringHashMap<u32> = StringHashMap::new();
    let pairs: usize = spans.len() / 2;
    let mut done: usize = 0;
    while done < pairs
        invariant
            done <= pairs,
            pairs == spans.len() / 2,
            frags == fragments(blob@),
            spans_of(blob@, spans@) == frags,
            forall|i: int|
                0 <= i < spans.len() ==> (#[trigger] spans[i]).0 < spans[i].1 <= blob@.len(),
            table@ == table_of_pairs(frags, done as nat),
        decreases pairs - done,
    {
        let index_span: (usize, usize) = spans[2 * done];
        let name_span: (usize, usize) = spans[2 * done + 1];
        let index_text: &[u8] = slice_subrange(blob, index_span.0, index_span.1);
        let name_text: &[u8] = slice_subrange(blob, name_span.0, name_span.1);
        proof {
            assert(spans_of(blob@, spans@)[2 * done] == index_text@);
            assert(spans_of(blob@, spans@)[2 * done + 1] == name_text@);
        }
        let index: Option<u32> = parse_index(index_text);
        let name: Option<String> = string_from_utf8(slice_to_vec(name_text));
        match (index, name) {
            (Some(index), Some(name)) => {
                table.insert(name, index);
            },
            _ => {},
        }
        done += 1;
    }
    table
}

/// Reads the names by index out of the block that the system keeps them in.
pub fn load_names(blob: &[u8]) -> (names: HashMap<u32, String>)
    ensures
        texts_of(names@) == name_table(blob@),
{
    let spans: Vec<(usize, usize)> = fragment_spans(blob);
    let ghost frags = fragments(blob@);
    let mut names: HashMap<u32, String> = HashMap::new();
    let pairs: usize = spans.len() / 2;
    let mut done: usize = 0;
    assert(texts_of(names@) =~= names_of_pairs(frags, 0));
    while done < pairs
        invariant
            done <= pairs,
            pairs == spans.len() / 2,
            frags == fragments(blob@),
            spans_of(blob@, spans@) == frags,
            forall|i: int|
                0 <= i < spans.len() ==> (#[trigger] spans[i]).0 < spans[i].1 <= blob@.len(),
            texts_of(names@) == names_of_pairs(frags, done as nat),
        decreases pairs - done,
    {
        let index_span: (usize, usize) = spans[2 * done];
        let name_span: (usize, usize) = spans[2 * done + 1];
        let index_text: &[u8] = slice_subrange(blob, index_span.0, index_span.1);
        let name_text: &[u8] = slice_subrange(blob, name_span.0, name_span.1);
        proof {
            assert(spans_of(blob@, spans@)[2 * done] == index_text@);
            assert(spans_of(blob@, spans@)[2 * done + 1] == name_text@);
        }
        let index: Option<u32> = parse_index(index_text);
        let name: Option<String> = string_from_utf8(slice_to_vec(name_text));
        let ghost before = names@;
        match (index, name) {
            (Some(index), Some(name)) => {
                names.insert(index, name);
                assert(texts_of(names@) =~= texts_of(before).insert(index, name@));
            },
            _ => {},
        }
        done += 1;
    }
    names
}

/// The index that the table gives the counter name `s`, if it knows the name:
/// the index to ask the system the current display name of.
pub fn translation_index(s: &String, map: &StringHashMap<u32>) -> (index: Option<u32>)
    ensures
        index == (if map@.contains_key(s@) {
            Some(map@[s@])
        } else {
            None
        }),
{
    match map.get(s.as_str()) {
        Some(index) => Some(*index),
        None => None,
    }
}

/// The display name of the counter `name`, given the units that the system
/// wrote when asked for the name of the counter's index. A counter that the
/// table does not know has none. An empty reply is the empty name; any other
/// reply ends with a terminator, which is dropped, and is read as UTF-16. A
/// reply that is not well-formed gives no name.
pub open spec fn translation_of(table: Map<Seq<char>, u32>, name: Seq<char>, reply: Seq<u16>) -> Option<
    Seq<char>,
> {
    if !table.contains_key(name) {
        None
    } else if reply.len() == 0 {
        Some(seq![])
    } else {
        utf16_text(reply.drop_last())
    }
}

/// Resolves the counter name `s` to its current display name, from the wide
/// string `reply` that the system wrote for the index of `s`.
pub fn get_translation(s: &String, map: &StringHashMap<u32>, reply: &[u16]) -> (name: Option<String>)
    ensures
        name is Some <==> translation_of(map@, s@, reply@) is Some,
        name matches Some(t) ==> Some(t@) == translation_of(map@, s@, reply@),
{
    if !map.contains_key(s.as_str()) {
        return None;
    }
    let size: usize = reply.len();
    if size == 0 {
        return Some(String::new());
    }
    assert(reply@.subrange(0, size - 1) =~= reply@.drop_last());
    decode_utf16(slice_subrange(reply, 0, size - 1))
}

// ---------------------------------------------------------------------------
// Queries
// ---------------------------------------------------------------------------

/// The counters of one live query: the handle that the system gave for each
/// counter, by the name the counter was registered under.
pub struct Query {
    counters: StringHashMap<u64>,
}

impl View for Query {
    type V = Map<Seq<char>, u64>;

    closed spec fn view(&self) -> Map<Seq<char>, u64> {
        self.counters@
    }
}

impl Query {
    /// A query without counters.
    pub fn new() -> (query: Query)
        ensures
            query@ == Map::<Seq<char>, u64>::empty(),
    {
        Query { counters: StringHashMap::new() }
    }

    /// Whether a counter is registered under `name`.
    pub fn contains(&self, name: &str) -> (found: bool)
        ensures
            found == self@.contains_key(name@),
    {
        self.counters.contains_key(name)
    }

    /// The handle of the counter registered under `name`.
    pub fn handle(&self, name: &str) -> (handle: Option<u64>)
        ensures
            handle == (if self@.contains_key(name@) {
                Some(self@[name@])
            } else {
                None
            }),
    {
        match self.counters.get(name) {
            Some(handle) => Some(*handle),
            None => None,
        }
    }

    /// Registers a counter under `name`. `handle` is what the system returned
    /// when the counter was opened, `None` where it refused. Nothing is
    /// registered, and `false` returned, where the name is taken or the system
    /// refused.
    pub fn add_counter(&mut self, name: &String, handle: Option<u64>) -> (added: bool)
        ensures
            added == (handle is Some && !old(self)@.contains_key(name@)),
            added ==> final(self)@ == old(self)@.insert(name@, handle->0),
            !added ==> final(self)@ == old(self)@,
    {
        if self.counters.contains_key(name.as_str()) {
            return false;
        }
        match handle {
            Some(handle) => {
                self.counters.insert(name.clone(), handle);
                true
            },
            None => false,
        }
    }

    /// Forgets the counter registered under `name` and returns its handle,
    /// for the caller to release.
    pub fn remove_counter(&mut self, name: &str) -> (handle: Option<u64>)
        ensures
            handle == (if old(self)@.contains_key(name@) {
                Some(old(self)@[name@])
            } else {
                None
            }),
            final(self)@ == old(self)@.remove(name@),
    {
        let handle: Option<u64> = self.handle(name);
        self.counters.remove(name);
        handle
    }
}

/// The path of a counter as the live-query interface takes it: `text` in
/// UTF-16, closed by a terminator.
pub open spec fn wide_path(text: Seq<char>) -> Seq<u16> {
    utf16_units(text).push(0)
}

/// Computes `wide_path`.
pub fn counter_path(s: &str) -> (full: Vec<u16>)
    ensures
        full@ == wide_path(s@),
{
    let mut full: Vec<u16> = encode_utf16(s);
    full.push(0);
    full
}

/// Registers the counter whose path is `s` with `query` under `counter_name`,
/// and on success leaves the key for polling it in `keys`. `handle` is what
/// the system returned when the path was opened. Where the name is taken or
/// the system refused, neither `query` nor `keys` changes.
pub fn add_counter(
    s: String,
    query: &mut Query,
    keys: &mut Option<KeyHandler>,
    counter_name: String,
    handle: Option<u64>,
)
    ensures
        handle is Some && !old(query)@.contains_key(counter_name@) ==> {
            &&& final(query)@ == old(query)@.insert(counter_name@, handle->0)
            &&& *final(keys) matches Some(key)
            &&& key.unique_id == counter_name
            &&& key.win_key@ == wide_path(s@)
        },
        !(handle is Some && !old(query)@.contains_key(counter_name@)) ==> {
            &&& final(query)@ == old(query)@
            &&& *final(keys) == *old(keys)
        },
{
    let full: Vec<u16> = counter_path(s.as_str());
    if query.add_counter(&counter_name, handle) {
        *keys = Some(KeyHandler::new(counter_name, full));
    }
}

// ---------------------------------------------------------------------------
// The cached table
// ---------------------------------------------------------------------------

/// What a filled cache holds: the index of each counter name, and the name
/// of each index.
pub struct SymbolTables {
    pub indices: Map<Seq<char>, u32>,
    pub names: Map<u32, Seq<char>>,
}

/// The tables of counter names of one backend: read once, then kept.
pub struct SymbolCache {
    table: Option<StringHashMap<u32>>,
    names: HashMap<u32, String>,
}

/// What a cache holds after a bootstrap that was handed `blob`, the block read
/// from the system, or `None` where it could not be read. A cache that is
/// filled keeps what it holds; an empty one takes the tables of the block, or
/// empty tables where there is no block.
pub open spec fn bootstrapped(cached: Option<SymbolTables>, blob: Option<Seq<u8>>) -> Option<
    SymbolTables,
> {
    match cached {
        Some(tables) => Some(tables),
        None => match blob {
            Some(bytes) => Some(
                SymbolTables { indices: symbol_table(bytes), names: name_table(bytes) },
            ),
            None => Some(SymbolTables { indices: Map::empty(), names: Map::empty() }),
        },
    }
}

impl View for SymbolCache {
    type V = Option<SymbolTables>;

    closed spec fn view(&self) -> Option<SymbolTables> {
        match self.table {
            Some(table) => Some(SymbolTables { indices: table@, names: texts_of(self.names@) }),
            None => None,
        }
    }
}

impl SymbolCache {
    /// A cache that holds nothing yet.
    pub fn new() -> (cache: SymbolCache)
        ensures
            cache@ is None,
    {
        SymbolCache { table: None, names: HashMap::new() }
    }

    /// Whether the tables still have to be read from the system.
    pub fn needs_bootstrap(&self) -> (needed: bool)
        ensures
            needed == (self@ is None),
    {
        self.table.is_none()
    }

    /// Fills the cache, unless it is filled already.
    pub fn bootstrap(&mut self, blob: Option<&[u8]>)
        ensures
            final(self)@ == bootstrapped(
                old(self)@,
                match blob {
                    Some(bytes) => Some(bytes@),
                    None => None,
                },
            ),
    {
        if self.table.is_none() {
            match blob {
                Some(bytes) => {
                    self.names = load_names(bytes);
                    self.table = Some(load_symbols(bytes));
                },
                None => {
                    self.names = HashMap::new();
                    self.table = Some(StringHashMap::new());
                    assert(texts_of(self.names@) =~= Map::<u32, Seq<char>>::empty());
                },
            }
        }
    }

    /// The index that the cached table gives the counter name `name`.
    pub fn index_of(&self, name: &String) -> (index: Option<u32>)
        ensures
            index == (match self@ {
                Some(tables) => if tables.indices.contains_key(name@) {
                    Some(tables.indices[name@])
                } else {
                    None
                },
                None => None,
            }),
    {
        match &self.table {
            Some(table) => translation_index(name, table),
            None => None,
        }
    }

    /// The name that the cached table gives the counter index `index`.
    pub fn name_of(&self, index: u32) -> (name: Option<&String>)
        ensures
            name is Some <==> (self@ matches Some(tables) && tables.names.contains_key(index)),
            name matches Some(text) ==> self@ matches Some(tables) && text@
                == tables.names[index],
    {
        if self.table.is_none() {
            return None;
        }
        self.names.get(&index)
    }

    /// The current display name of the counter `name`, from the wide string
    /// `reply` that the system wrote for the counter's index. A cache that
    /// holds no table knows no counter.
    pub fn translation(&self, name: &String, reply: &[u16]) -> (text: Option<String>)
        ensures
            text is Some <==> (self@ matches Some(tables) && translation_of(
                tables.indices,
                name@,
                reply@,
            ) is Some),
            text matches Some(t) ==> self@ matches Some(tables) && Some(t@) == translation_of(
                tables.indices,
                name@,
                reply@,
            ),
    {
        match &self.table {
            Some(table) => get_translation(name, table, reply),
            None => None,
        }
    }

    /// The number of counter names in the cached table.
    pub fn len(&self) -> (n: usize)
        ensures
            n == (match self@ {
                Some(tables) => tables.indices.len(),
                None => 0,
            }),
    {
        match &self.table {
            Some(table) => table.len(),
            None => 0,
        }
    }
}

/// A bootstrap fills the cache, and a second one changes nothing: whatever
/// the system hands over the second time, the tables stay the ones that the
/// first bootstrap left.
pub proof fn lemma_bootstrap_once(
    cached: Option<SymbolTables>,
    first: Option<Seq<u8>>,
    second: Option<Seq<u8>>,
)
    ensures
        bootstrapped(cached, first) is Some,
        bootstrapped(bootstrapped(cached, first), second) == bootstrapped(cached, first),
{
}

} // verus!
