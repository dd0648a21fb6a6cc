use sysinfo::text::{decode_utf16, encode_utf16, parse_index};
use sysinfo::tools::{
    add_counter, counter_path, fragment_spans, get_translation, init_processors, load_names,
    load_symbols, translation_index, KeyHandler, Query, SymbolCache,
};

fn wide(s: &str) -> Vec<u16> {
    s.encode_utf16().collect()
}

#[test]
fn key_handler_keeps_its_parts() {
    let key = KeyHandler::new("disk".to_string(), vec![1, 2, 0]);
    assert_eq!(key.unique_id, "disk");
    assert_eq!(key.win_key, vec![1, 2, 0]);
}

#[test]
fn parse_index_reads_decimal() {
    assert_eq!(parse_index(b"0"), Some(0));
    assert_eq!(parse_index(b"238"), Some(238));
    assert_eq!(parse_index(b"+17"), Some(17));
    assert_eq!(parse_index(b"007"), Some(7));
    assert_eq!(parse_index(b"4294967295"), Some(u32::MAX));
}

#[test]
fn parse_index_rejects_what_is_no_index() {
    assert_eq!(parse_index(b""), None);
    assert_eq!(parse_index(b"+"), None);
    assert_eq!(parse_index(b"-1"), None);
    assert_eq!(parse_index(b"++1"), None);
    assert_eq!(parse_index(b"12a"), None);
    assert_eq!(parse_index(b" 12"), None);
    assert_eq!(parse_index(b"4294967296"), None);
    assert_eq!(parse_index(b"99999999999999999999999"), None);
}

#[test]
fn fragments_skip_empty_strings() {
    assert_eq!(fragment_spans(b""), vec![]);
    assert_eq!(fragment_spans(b"\0\0"), vec![]);
    assert_eq!(fragment_spans(b"ab\0\0c\0"), vec![(0, 2), (4, 5)]);
    assert_eq!(fragment_spans(b"\0ab"), vec![(1, 3)]);
}

#[test]
fn load_symbols_pairs_indices_with_names() {
    let table = load_symbols(b"1\x001847\x002\0System\x004\0Memory\0\0");
    assert_eq!(table.len(), 3);
    assert_eq!(table.get("1847"), Some(&1));
    assert_eq!(table.get("System"), Some(&2));
    assert_eq!(table.get("Memory"), Some(&4));
    assert_eq!(table.get("Processor"), None);
}

#[test]
fn load_symbols_drops_invalid_pairs() {
    // "x" is no index, the trailing "9" has no name, the bytes 0xff 0xfe are no UTF-8.
    let table = load_symbols(b"x\0Lost\x006\0\xff\xfe\x008\0Kept\x009\0");
    assert_eq!(table.len(), 1);
    assert_eq!(table.get("Kept"), Some(&8));
    assert_eq!(table.get("Lost"), None);
}

#[test]
fn load_symbols_later_pair_wins() {
    let table = load_symbols(b"2\0Name\x005\0Name\0");
    assert_eq!(table.len(), 1);
    assert_eq!(table.get("Name"), Some(&5));
}

#[test]
fn load_symbols_of_nothing_is_empty() {
    assert_eq!(load_symbols(b"").len(), 0);
    assert_eq!(load_symbols(b"\0\0\0").len(), 0);
}

#[test]
fn utf16_round_trip() {
    for s in ["", "Processor", "Prozessor(_Total)\\Leerlaufzeit (%)", "\u{10348}x\u{ffff}\u{10000}\u{10ffff}"] {
        let units = encode_utf16(s);
        assert_eq!(units, wide(s));
        assert_eq!(decode_utf16(&units), Some(s.to_string()));
    }
}

#[test]
fn utf16_rejects_lone_surrogates() {
    assert_eq!(decode_utf16(&[0xD800]), None);
    assert_eq!(decode_utf16(&[0xDC00, 0x41]), None);
    assert_eq!(decode_utf16(&[0xD800, 0x41]), None);
    assert_eq!(decode_utf16(&[0x41, 0xD83D, 0xDE00]), Some("A\u{1F600}".to_string()));
}

#[test]
fn translation_needs_a_known_name() {
    let table = load_symbols(b"6\0Processor\0");
    let name = "Processor".to_string();
    assert_eq!(translation_index(&name, &table), Some(6));
    assert_eq!(translation_index(&"Disk".to_string(), &table), None);
    let mut reply = wide("Prozessor");
    reply.push(0);
    assert_eq!(get_translation(&name, &table, &reply), Some("Prozessor".to_string()));
    assert_eq!(get_translation(&"Disk".to_string(), &table, &reply), None);
    assert_eq!(get_translation(&name, &table, &[]), Some(String::new()));
    assert_eq!(get_translation(&name, &table, &[0xD800, 0]), None);
}

#[test]
fn counter_path_is_terminated() {
    assert_eq!(counter_path("\\A(b)\\c"), vec![92, 65, 40, 98, 41, 92, 99, 0]);
    assert_eq!(counter_path(""), vec![0]);
}

#[test]
fn add_counter_keeps_the_key_on_success() {
    let mut query = Query::new();
    let mut keys = None;
    add_counter("\\P\\x".to_string(), &mut query, &mut keys, "proc".to_string(), Some(77));
    let key = keys.expect("key");
    assert_eq!(key.unique_id, "proc");
    assert_eq!(key.win_key, counter_path("\\P\\x"));
    assert_eq!(query.handle("proc"), Some(77));
    assert!(query.contains("proc"));
}

#[test]
fn add_counter_leaves_all_alone_on_failure() {
    let mut query = Query::new();
    let mut keys = None;
    add_counter("\\P\\x".to_string(), &mut query, &mut keys, "proc".to_string(), None);
    assert!(keys.is_none());
    assert!(!query.contains("proc"));
    add_counter("\\P\\x".to_string(), &mut query, &mut keys, "proc".to_string(), Some(1));
    let mut other = None;
    add_counter("\\P\\y".to_string(), &mut query, &mut other, "proc".to_string(), Some(2));
    assert!(other.is_none());
    assert_eq!(query.handle("proc"), Some(1));
    assert_eq!(query.remove_counter("proc"), Some(1));
    assert_eq!(query.remove_counter("proc"), None);
}

#[test]
fn bootstrap_runs_once() {
    let mut cache = SymbolCache::new();
    assert!(cache.needs_bootstrap());
    cache.bootstrap(Some(b"3\0Disk\0"));
    assert!(!cache.needs_bootstrap());
    assert_eq!(cache.index_of(&"Disk".to_string()), Some(3));
    cache.bootstrap(Some(b"4\0Other\0"));
    assert_eq!(cache.len(), 1);
    assert_eq!(cache.index_of(&"Disk".to_string()), Some(3));
    assert_eq!(cache.index_of(&"Other".to_string()), None);
}

#[test]
fn cached_table_translates() {
    let mut cache = SymbolCache::new();
    let name = "Disk".to_string();
    let mut reply = wide("Datentr\u{e4}ger");
    reply.push(0);
    assert_eq!(cache.translation(&name, &reply), None);
    cache.bootstrap(Some(b"3\0Disk\0"));
    assert_eq!(cache.translation(&name, &reply), Some("Datentr\u{e4}ger".to_string()));
    assert_eq!(cache.translation(&"Other".to_string(), &reply), None);
}

#[test]
fn load_names_maps_indices_to_names() {
    let names = load_names(b"2\0System\x002\0Later\x00x\0Lost\x004\0Memory\x009\0");
    assert_eq!(names.len(), 2);
    assert_eq!(names.get(&2), Some(&"Later".to_string()));
    assert_eq!(names.get(&4), Some(&"Memory".to_string()));
    assert_eq!(names.get(&9), None);
}

#[test]
fn cache_answers_in_both_directions() {
    let mut cache = SymbolCache::new();
    assert_eq!(cache.name_of(6), None);
    cache.bootstrap(Some(b"6\0Processor\x00238\0Processor\0"));
    assert_eq!(cache.index_of(&"Processor".to_string()), Some(238));
    assert_eq!(cache.name_of(6), Some(&"Processor".to_string()));
    assert_eq!(cache.name_of(238), Some(&"Processor".to_string()));
    assert_eq!(cache.name_of(7), None);
    assert_eq!(cache.len(), 1);
}

#[test]
fn bootstrap_without_registry_is_empty() {
    let mut cache = SymbolCache::new();
    cache.bootstrap(None);
    assert!(!cache.needs_bootstrap());
    assert_eq!(cache.len(), 0);
    assert_eq!(cache.index_of(&"Disk".to_string()), None);
}

#[test]
fn init_processors_names_cores_from_one() {
    let (list, vendor, brand) =
        init_processors(12, "GenuineIntel".to_string(), "Core".to_string(), &vec![2400; 12]);
    assert_eq!(vendor, "GenuineIntel");
    assert_eq!(brand, "Core");
    assert_eq!(list.len(), 12);
    assert_eq!(list[0].name(), "CPU 1");
    assert_eq!(list[9].name(), "CPU 10");
    assert_eq!(list[11].name(), "CPU 12");
    assert_eq!(list[3].vendor_id(), "GenuineIntel");
    assert_eq!(list[3].brand(), "Core");
    assert_eq!(list[3].frequency(), 2400);
    assert_eq!(list[3].cpu_usage(), 0);
}
