use std::cell::RefCell;
use std::collections::HashMap;

use loghound::process::{file_name_of, NullLookup, ProcessNameCache, ProcessNameLookup};

/// Counts how often each process id is looked up.
struct MockLookup {
    names: HashMap<u32, String>,
    calls: RefCell<HashMap<u32, usize>>,
}

impl ProcessNameLookup for MockLookup {
    fn lookup(&self, pid: u32) -> Option<String> {
        *self.calls.borrow_mut().entry(pid).or_insert(0) += 1;
        self.names.get(&pid).cloned()
    }
}

#[test]
fn file_name_extraction() {
    assert_eq!(file_name_of("C:\\dir\\app.exe"), "app.exe");
    assert_eq!(file_name_of("/usr/bin/app"), "app");
    assert_eq!(file_name_of("noslash"), "noslash");
}

#[test]
fn file_name_edge_cases() {
    assert_eq!(file_name_of("C:\\dir\\"), "");
    assert_eq!(file_name_of(""), "");
    assert_eq!(file_name_of("a/b\\c"), "c");
    assert_eq!(file_name_of("目录\\程序.exe"), "程序.exe");
}

#[test]
fn caches_results_per_pid() {
    let mut names = HashMap::new();
    names.insert(1, "a.exe".to_string());
    let mock = MockLookup {
        names,
        calls: RefCell::new(HashMap::new()),
    };
    let calls_ref = mock.calls.borrow().clone();
    let _ = calls_ref;
    let mut cache = ProcessNameCache::new(mock, 16);

    assert_eq!(cache.get(1).as_deref(), Some("a.exe"));
    assert_eq!(cache.get(1).as_deref(), Some("a.exe"));
    assert_eq!(cache.get(2), None);
    assert_eq!(cache.get(2), None);

    let calls = cache.lookup().calls.borrow();
    assert_eq!(calls.get(&1), Some(&1));
    assert_eq!(calls.get(&2), Some(&1));
}

#[test]
fn evicts_when_over_capacity() {
    let mock = MockLookup {
        names: HashMap::new(),
        calls: RefCell::new(HashMap::new()),
    };
    let mut cache = ProcessNameCache::new(mock, 2);
    cache.get(1);
    cache.get(2);
    cache.get(3);
    cache.get(1);

    let calls = cache.lookup().calls.borrow();
    assert_eq!(calls.get(&1), Some(&2));
}

#[test]
fn eviction_takes_the_oldest_first() {
    let mock = MockLookup {
        names: HashMap::new(),
        calls: RefCell::new(HashMap::new()),
    };
    let mut cache = ProcessNameCache::new(mock, 2);
    cache.get(1);
    cache.get(2);
    cache.get(1); // a hit does not refresh the entry
    cache.get(3); // evicts 1, the oldest
    cache.get(2); // still cached
    cache.get(1); // looked up again
    let calls = cache.lookup().calls.borrow();
    assert_eq!(calls.get(&1), Some(&2));
    assert_eq!(calls.get(&2), Some(&1));
    assert_eq!(calls.get(&3), Some(&1));
}

#[test]
fn zero_capacity_keeps_one_entry() {
    let mock = MockLookup {
        names: HashMap::new(),
        calls: RefCell::new(HashMap::new()),
    };
    let mut cache = ProcessNameCache::new(mock, 0);
    cache.get(5);
    cache.get(5);
    cache.get(6);
    cache.get(5);
    let calls = cache.lookup().calls.borrow();
    assert_eq!(calls.get(&5), Some(&2));
    assert_eq!(calls.get(&6), Some(&1));
}

#[test]
fn null_lookup_finds_nothing() {
    assert_eq!(NullLookup.lookup(1), None);
    let mut cache = ProcessNameCache::new(NullLookup, 4);
    assert_eq!(cache.get(10), None);
}
