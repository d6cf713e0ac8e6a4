//! Process id to process name, with a bounded cache so that not every message
//! costs a system call.

use vstd::prelude::*;
use std::collections::HashMap;
use std::collections::VecDeque;

verus! {

broadcast use vstd::std_specs::hash::group_hash_axioms;

/// Lookup of a process name, for the platform or a test to implement.
pub trait ProcessNameLookup {
    /// The name of process `pid` (such as `myapp.exe`), or `None` when the
    /// process has exited or cannot be queried.
    fn lookup(&self, pid: u32) -> Option<String>;
}

/// The lookup of platforms without process names: it never finds one.
pub struct NullLookup;

impl ProcessNameLookup for NullLookup {
    fn lookup(&self, _pid: u32) -> (r: Option<String>)
        ensures
            r is None,
    {
        None
    }
}

/// A bounded cache of process names, evicting the oldest entry first.
pub struct ProcessNameCache<L: ProcessNameLookup> {
    lookup: L,
    capacity: usize,
    map: HashMap<u32, Option<String>>,
    order: VecDeque<u32>,
}

impl<L: ProcessNameLookup> ProcessNameCache<L> {
    /// The cached lookups: process id to the name found (or `None`).
    pub closed spec fn entries(&self) -> Map<u32, Option<String>> {
        self.map@
    }

    /// The cached process ids, oldest first.
    pub closed spec fn order(&self) -> Seq<u32> {
        self.order@
    }

    /// The most entries the cache holds.
    pub closed spec fn capacity(&self) -> nat {
        self.capacity as nat
    }

    /// The lookup behind the cache.
    pub closed spec fn source(&self) -> L {
        self.lookup
    }

    /// Every cached name is an answer the lookup gives for its id.
    pub open spec fn holds_lookup_answers(&self) -> bool {
        forall|k: u32|
            #[trigger] self.entries().contains_key(k) ==> call_ensures(
                L::lookup,
                (&self.source(), k),
                self.entries()[k],
            )
    }

    /// The cache's invariant: every cached id is listed once in `order`, there
    /// are at most `capacity` of them, which is at least 1, and every cached
    /// name is what the lookup answered for its id.
    pub closed spec fn wf(&self) -> bool {
        &&& self.holds_lookup_answers()
        &&& self.capacity >= 1
        &&& self.order@.no_duplicates()
        &&& self.map@.dom() == self.order@.to_set()
        &&& self.map@.len() == self.order@.len()
        &&& self.order@.len() <= self.capacity
    }

    /// The entries after a miss on `pid` whose lookup gave `name`: when full,
    /// the oldest entry goes first.
    pub open spec fn entries_after_miss(&self, pid: u32, name: Option<String>) -> Map<
        u32,
        Option<String>,
    > {
        if self.entries().len() >= self.capacity() {
            self.entries().remove(self.order()[0]).insert(pid, name)
        } else {
            self.entries().insert(pid, name)
        }
    }

    /// The order after a miss on `pid`.
    pub open spec fn order_after_miss(&self, pid: u32) -> Seq<u32> {
        if self.entries().len() >= self.capacity() {
            self.order().drop_first().push(pid)
        } else {
            self.order().push(pid)
        }
    }

    /// An empty cache over `lookup` holding at most `capacity` names (at least one).
    pub fn new(lookup: L, capacity: usize) -> (c: Self)
        ensures
            c.wf(),
            c.capacity() == if capacity >= 1 {
                capacity as nat
            } else {
                1
            },
            c.entries() == Map::<u32, Option<String>>::empty(),
            c.order() == Seq::<u32>::empty(),
            c.source() == lookup,
    {
        let capacity = if capacity >= 1 {
            capacity
        } else {
            1
        };
        let c = ProcessNameCache { lookup, capacity, map: HashMap::new(), order: VecDeque::new() };
        proof {
            assert(c.order@.to_set() =~= Set::<u32>::empty());
            assert(c.map@.dom() =~= Set::<u32>::empty());
        }
        c
    }

    /// The lookup behind the cache.
    pub fn lookup(&self) -> (l: &L)
        ensures
            *l == self.source(),
    {
        &self.lookup
    }

    /// The name of process `pid`: the cached answer when there is one, else the
    /// answer of the lookup, which is then cached.
    pub fn get(&mut self, pid: u32) -> (r: Option<String>)
        requires
            old(self).wf(),
        ensures
            final(self).wf(),
            final(self).capacity() == old(self).capacity(),
            final(self).source() == old(self).source(),
            call_ensures(L::lookup, (&old(self).source(), pid), r),
            old(self).entries().contains_key(pid) ==> {
                &&& r == old(self).entries()[pid]
                &&& final(self).entries() == old(self).entries()
                &&& final(self).order() == old(self).order()
            },
            !old(self).entries().contains_key(pid) ==> {
                &&& final(self).entries() == old(self).entries_after_miss(pid, r)
                &&& final(self).order() == old(self).order_after_miss(pid)
            },
    {
        match self.map.get(&pid) {
            Some(cached) => {
                proof {
                    assert(self.entries().contains_key(pid));
                    assert(self.holds_lookup_answers());
                }
                return match cached {
                    Some(name) => Some(name.clone()),
                    None => None,
                };
            },
            None => {},
        }
        let resolved = self.lookup.lookup(pid);
        let copy = match &resolved {
            Some(name) => Some(name.clone()),
            None => None,
        };
        self.insert(pid, copy);
        resolved
    }

    fn insert(&mut self, pid: u32, name: Option<String>)
        requires
            old(self).wf(),
            !old(self).entries().contains_key(pid),
            call_ensures(L::lookup, (&old(self).source(), pid), name),
        ensures
            final(self).wf(),
            final(self).capacity() == old(self).capacity(),
            final(self).source() == old(self).source(),
            final(self).entries() == old(self).entries_after_miss(pid, name),
            final(self).order() == old(self).order_after_miss(pid),
    {
        let ghost old_order = self.order@;
        let ghost old_map = self.map@;
        if self.map.len() >= self.capacity {
            let popped = self.order.pop_front();
            match popped {
                Some(oldest) => {
                    self.map.remove(&oldest);
                    proof {
                        lemma_remove_first(old_order, old_map);
                    }
                },
                None => {},
            }
        }
        let ghost mid_order = self.order@;
        let ghost mid_map = self.map@;
        self.map.insert(pid, name);
        self.order.push_back(pid);
        proof {
            lemma_push_new(mid_order, mid_map, pid, name);
            assert forall|k: u32| #[trigger] self.entries().contains_key(k) implies call_ensures(
                L::lookup,
                (&self.source(), k),
                self.entries()[k],
            ) by {
                if k != pid {
                    assert(old_map.contains_key(k));
                }
            }
        }
    }
}

/// Removing the oldest id keeps the ids listed once and in step with the map.
proof fn lemma_remove_first(order: Seq<u32>, m: Map<u32, Option<String>>)
    requires
        order.len() > 0,
        order.no_duplicates(),
        m.dom() == order.to_set(),
        m.len() == order.len(),
    ensures
        order.drop_first().no_duplicates(),
        m.remove(order[0]).dom() == order.drop_first().to_set(),
        m.remove(order[0]).len() == order.drop_first().len(),
{
    let rest = order.drop_first();
    assert(rest.to_set() =~= order.to_set().remove(order[0])) by {
        assert forall|k: u32| rest.to_set().contains(k) <==> order.to_set().remove(order[0]).contains(
            k,
        ) by {
            if rest.contains(k) {
                let i = choose|i: int| 0 <= i < rest.len() && rest[i] == k;
                assert(order[i + 1] == k);
            }
            if k != order[0] && order.contains(k) {
                let i = choose|i: int| 0 <= i < order.len() && order[i] == k;
                assert(i != 0);
                assert(rest[i - 1] == k);
            }
        }
    }
    assert(m.remove(order[0]).dom() =~= m.dom().remove(order[0]));
    assert(m.dom().contains(order[0]));
}

/// Adding a new id at the end keeps the ids listed once and in step with the map.
proof fn lemma_push_new(order: Seq<u32>, m: Map<u32, Option<String>>, pid: u32, v: Option<String>)
    requires
        order.no_duplicates(),
        m.dom() == order.to_set(),
        m.len() == order.len(),
        !m.dom().contains(pid),
    ensures
        order.push(pid).no_duplicates(),
        m.insert(pid, v).dom() == order.push(pid).to_set(),
        m.insert(pid, v).len() == order.push(pid).len(),
{
    let o2 = order.push(pid);
    assert(!order.contains(pid));
    assert forall|i: int, j: int| 0 <= i < o2.len() && 0 <= j < o2.len() && i != j implies o2[i]
        != o2[j] by {
        if i < order.len() && j < order.len() {
        } else if i == order.len() {
            assert(o2[j] == order[j]);
        } else {
            assert(o2[i] == order[i]);
        }
    }
    assert forall|k: u32| o2.to_set().contains(k) <==> order.to_set().insert(pid).contains(k) by {
        if o2.contains(k) {
            let i = choose|i: int| 0 <= i < o2.len() && o2[i] == k;
            if i < order.len() {
                assert(order[i] == k);
            }
        }
        if order.contains(k) {
            let i = choose|i: int| 0 <= i < order.len() && order[i] == k;
            assert(o2[i] == k);
        }
        if k == pid {
            assert(o2[order.len() as int] == k);
        }
    }
    assert(o2.to_set() =~= order.to_set().insert(pid));
    assert(m.insert(pid, v).dom() =~= m.dom().insert(pid));
}

/// The queue of a cache lists each cached id exactly once, its ids are exactly
/// the cached ones, and there are at most `capacity` of them. (Each miss puts
/// its id at the end of the queue and an eviction takes the front, as `get`
/// states, so the queue is in insertion order.)
pub proof fn law_queue_lists_each_cached_id_once<L: ProcessNameLookup>(c: ProcessNameCache<L>)
    requires
        c.wf(),
    ensures
        c.order().no_duplicates(),
        forall|k: u32| c.entries().contains_key(k) <==> c.order().contains(k),
        c.entries().len() == c.order().len(),
        c.order().len() <= c.capacity(),
{
    assert forall|k: u32| c.entries().contains_key(k) <==> c.order().contains(k) by {
        assert(c.entries().dom().contains(k) == c.order().to_set().contains(k));
    }
}

/// Every name the cache holds is what the lookup answered for that id.
pub proof fn law_cached_names_are_lookup_answers<L: ProcessNameLookup>(
    c: ProcessNameCache<L>,
    pid: u32,
)
    requires
        c.wf(),
        c.entries().contains_key(pid),
    ensures
        call_ensures(L::lookup, (&c.source(), pid), c.entries()[pid]),
{
}

/// The cache never holds more names than its capacity.
pub proof fn law_cache_is_bounded<L: ProcessNameLookup>(c: ProcessNameCache<L>)
    requires
        c.wf(),
    ensures
        c.entries().len() <= c.capacity(),
        c.capacity() >= 1,
{
}

/// A miss on a full cache evicts exactly the oldest cached id, and the new id
/// becomes the newest.
pub proof fn law_eviction_is_oldest_first<L: ProcessNameLookup>(
    c: ProcessNameCache<L>,
    pid: u32,
    name: Option<String>,
)
    requires
        c.wf(),
        !c.entries().contains_key(pid),
        c.entries().len() >= c.capacity(),
    ensures
        !c.entries_after_miss(pid, name).contains_key(c.order()[0]),
        forall|k: u32|
            k != c.order()[0] && #[trigger] c.entries().contains_key(k) ==> c.entries_after_miss(
                pid,
                name,
            ).contains_key(k),
        c.entries_after_miss(pid, name)[pid] == name,
        c.order_after_miss(pid).last() == pid,
        c.entries_after_miss(pid, name).len() == c.entries().len(),
{
    assert(c.order().len() > 0);
    assert(c.entries().dom().contains(c.order()[0]));
    assert(c.order()[0] != pid);
}

/// After any lookup the id is cached with the answer given, and the cache still
/// holds at most its capacity.
pub proof fn law_answer_is_cached<L: ProcessNameLookup>(
    c: ProcessNameCache<L>,
    pid: u32,
    name: Option<String>,
)
    requires
        c.wf(),
        !c.entries().contains_key(pid),
    ensures
        c.entries_after_miss(pid, name).contains_key(pid),
        c.entries_after_miss(pid, name)[pid] == name,
        c.entries_after_miss(pid, name).len() <= c.capacity(),
{
    if c.entries().len() >= c.capacity() {
        assert(c.order().len() > 0);
        assert(c.entries().dom().contains(c.order()[0]));
    }
}

// ---------------------------------------------------------------------------
// File name of a full path
// ---------------------------------------------------------------------------

/// `\` and `/` separate the parts of a path.
pub open spec fn is_separator(c: char) -> bool {
    c == '\\' || c == '/'
}

/// The part of `path` after its last separator (all of it when it has none).
pub open spec fn file_name(path: Seq<char>) -> Seq<char>
    decreases path.len(),
{
    if path.len() == 0 {
        path
    } else if is_separator(path.last()) {
        Seq::empty()
    } else {
        file_name(path.drop_last()).push(path.last())
    }
}

/// The file name holds no separator and ends `path`.
pub proof fn law_file_name_is_last_part(path: Seq<char>)
    ensures
        forall|i: int| 0 <= i < file_name(path).len() ==> !is_separator(#[trigger] file_name(path)[i]),
        file_name(path).len() <= path.len(),
        file_name(path) == path.skip(path.len() - file_name(path).len()),
    decreases path.len(),
{
    if path.len() > 0 && !is_separator(path.last()) {
        let p = path.drop_last();
        law_file_name_is_last_part(p);
        let f = file_name(p);
        assert forall|i: int| 0 <= i < file_name(path).len() implies !is_separator(
            #[trigger] file_name(path)[i],
        ) by {
            if i < f.len() {
                assert(file_name(path)[i] == f[i]);
            }
        }
        assert(p.skip(p.len() - f.len()).push(path.last()) =~= path.skip(path.len() - f.len() - 1));
    } else if path.len() > 0 {
        assert(path.skip(path.len() as int) =~= Seq::<char>::empty());
    } else {
        assert(path.skip(0) =~= path);
    }
}

/// The file name is everything after the last `\` or `/` of the path: the path
/// is some prefix followed by the file name, the file name holds neither
/// character, and the prefix is empty or ends with one of them.
pub proof fn law_file_name_is_all_after_last_separator(path: Seq<char>)
    ensures
        file_name(path).len() <= path.len(),
        path == path.take(path.len() - file_name(path).len()) + file_name(path),
        forall|i: int|
            path.len() - file_name(path).len() <= i < path.len() ==> #[trigger] path[i] != '\\'
                && path[i] != '/',
        file_name(path).len() < path.len() ==> (path[path.len() - file_name(path).len() - 1]
            == '\\' || path[path.len() - file_name(path).len() - 1] == '/'),
    decreases path.len(),
{
    law_file_name_is_last_part(path);
    let k = path.len() - file_name(path).len();
    assert(path =~= path.take(k) + path.skip(k));
    assert forall|i: int| k <= i < path.len() implies #[trigger] path[i] != '\\' && path[i] != '/' by {
        assert(path[i] == file_name(path)[i - k]);
    }
    if path.len() > 0 && !is_separator(path.last()) {
        law_file_name_is_all_after_last_separator(path.drop_last());
        let p = path.drop_last();
        if file_name(path).len() < path.len() {
            assert(p[p.len() - file_name(p).len() - 1] == path[k - 1]);
        }
    }
}

/// The file name part of a full path, `\` and `/` both taken as separators.
pub fn file_name_of(path: &str) -> (r: String)
    ensures
        r@ == file_name(path@),
{
    let v = crate::text::chars_of(path);
    let n = v.len();
    let mut j: usize = n;
    assert(v@.take(n as int) =~= v@);
    assert(v@.subrange(n as int, n as int) =~= Seq::<char>::empty());
    while j > 0 && !(v[j - 1] == '\\' || v[j - 1] == '/')
        invariant
            v@ == path@,
            n == v.len(),
            j <= n,
            file_name(v@) == file_name(v@.take(j as int)) + v@.subrange(j as int, n as int),
        decreases j,
    {
        let ghost t = v@.take(j as int);
        assert(t.drop_last() =~= v@.take(j - 1));
        assert(t.last() == v@[j - 1]);
        assert(v@.subrange(j - 1, n as int) =~= seq![v@[j - 1]] + v@.subrange(j as int, n as int));
        j = j - 1;
    }
    proof {
        if j > 0 {
            assert(v@.take(j as int).last() == v@[j - 1]);
        }
        assert(file_name(v@.take(j as int)) =~= Seq::<char>::empty());
        assert(file_name(v@) =~= v@.subrange(j as int, n as int));
    }
    let sub = path.substring_char(j, n);
    sub.to_owned()
}

} // verus!
