//! The decisions of the capture loop: for each outcome of a wait on the shared
//! buffer, resolve the process name, apply the filter and say which message,
//! if any, goes to the log. The program waits, writes and repeats.

use vstd::prelude::*;
use vstd::string::*;

pub mod dbwin;
pub mod decode;

use crate::config::Config;
use self::dbwin::Poll;
use crate::filter::{allows_spec, normalized_names, string_views, Filter};
use crate::model::{DebugMessage, LocalTime};
use crate::process::{ProcessNameCache, ProcessNameLookup};

verus! {

/// How long one wait for a message lasts, in milliseconds; then the loop checks
/// whether it was asked to stop.
pub const POLL_TIMEOUT_MS: u32 = 500;

/// Capacity of the process-name cache.
pub const NAME_CACHE_CAPACITY: usize = 512;

/// The view of an optional name.
pub open spec fn name_view(name: Option<String>) -> Option<Seq<char>> {
    match name {
        Some(n) => Some(n@),
        None => None,
    }
}

/// The state of a capture: the filter and the process-name cache.
pub struct Capture<L: ProcessNameLookup> {
    filter: Filter,
    names: ProcessNameCache<L>,
}

impl<L: ProcessNameLookup> Capture<L> {
    /// The filter in use.
    pub closed spec fn filter_spec(&self) -> Filter {
        self.filter
    }

    /// The process-name cache.
    pub closed spec fn cache(&self) -> ProcessNameCache<L> {
        self.names
    }

    /// The capture's invariant: the cache's.
    pub closed spec fn wf(&self) -> bool {
        self.names.wf()
    }

    /// A capture with the filter of `config` and an empty name cache of
    /// `NAME_CACHE_CAPACITY` names over `lookup`.
    pub fn new(config: &Config, lookup: L) -> (c: Self)
        ensures
            c.wf(),
            c.filter_spec().names() == normalized_names(string_views(config.filter.process_names@)),
            c.filter_spec().pid_list() == config.filter.pids@,
            c.cache().capacity() == NAME_CACHE_CAPACITY,
            c.cache().entries() == Map::<u32, Option<String>>::empty(),
            c.cache().source() == lookup,
    {
        Capture {
            filter: Filter::new(&config.filter),
            names: ProcessNameCache::new(lookup, NAME_CACHE_CAPACITY),
        }
    }

    /// The filter in use.
    pub fn filter(&self) -> (f: &Filter)
        ensures
            *f == self.filter_spec(),
    {
        &self.filter
    }

    /// Handles one outcome of a wait, read at local time `now`. A timeout gives
    /// nothing. A message gets its process name from the cache (looked up and
    /// cached on a miss) and is returned, stamped with `now`, exactly when the
    /// filter lets it through.
    pub fn handle(&mut self, event: Poll, now: LocalTime) -> (out: Option<DebugMessage>)
        requires
            old(self).wf(),
        ensures
            final(self).wf(),
            final(self).filter_spec() == old(self).filter_spec(),
            final(self).cache().capacity() == old(self).cache().capacity(),
            final(self).cache().source() == old(self).cache().source(),
            event is Timeout ==> out is None && final(self).cache() == old(self).cache(),
            event matches Poll::Message(pid, text) ==> {
                let name = final(self).cache().entries()[pid];
                &&& final(self).cache().entries().contains_key(pid)
                &&& call_ensures(L::lookup, (&old(self).cache().source(), pid), name)
                &&& old(self).cache().entries().contains_key(pid) ==> {
                    &&& name == old(self).cache().entries()[pid]
                    &&& final(self).cache().entries() == old(self).cache().entries()
                    &&& final(self).cache().order() == old(self).cache().order()
                }
                &&& !old(self).cache().entries().contains_key(pid) ==> {
                    &&& final(self).cache().entries() == old(self).cache().entries_after_miss(
                        pid,
                        name,
                    )
                    &&& final(self).cache().order() == old(self).cache().order_after_miss(pid)
                }
                &&& (out is Some <==> allows_spec(
                    old(self).filter_spec().names(),
                    old(self).filter_spec().pid_list(),
                    pid,
                    name_view(name),
                ))
                &&& out matches Some(m) ==> m.pid == pid && m.process_name == name && m.text
                    == text && m.timestamp == now
            },
    {
        match event {
            Poll::Timeout => None,
            Poll::Message(pid, text) => {
                let name = self.names.get(pid);
                proof {
                    if !old(self).names.entries().contains_key(pid) {
                        crate::process::law_answer_is_cached(old(self).names, pid, name);
                    }
                }
                let allowed = match &name {
                    Some(n) => self.filter.allows(pid, Some(n.as_str())),
                    None => self.filter.allows(pid, None),
                };
                if allowed {
                    Some(DebugMessage::new(pid, name, text, now))
                } else {
                    None
                }
            },
        }
    }
}

/// The first record a capture writes: `text` under the name `loghound`, process
/// id 0, stamped with `now`.
pub fn banner_message(text: String, now: LocalTime) -> (m: DebugMessage)
    ensures
        m.pid == 0,
        m.process_name matches Some(n) && n@ == "loghound"@,
        m.text == text,
        m.timestamp == now,
{
    DebugMessage::new(0, Some(String::from_str("loghound")), text, now)
}

} // verus!
