//! The process filter.
//!
//! Rule: when both allow lists are empty everything passes; otherwise a
//! message passes when its process id is listed, or when its process name,
//! compared without regard to case, is listed.

use vstd::prelude::*;

use crate::config::FilterConfig;
use crate::text::{all_white_space, lemma_trim_empty_iff_blank, lowercase, to_lowercase, trim, trim_str};

verus! {

/// What a configured name becomes in the filter: trimmed and lowercased, or
/// nothing when it is blank.
pub open spec fn normalize_name(name: Seq<char>) -> Option<Seq<char>> {
    let t = trim(name);
    if t.len() == 0 {
        None
    } else {
        let l = lowercase(t);
        if l.len() == 0 {
            None
        } else {
            Some(l)
        }
    }
}

/// The names of the filter built from the configured `names`, in their order.
pub open spec fn normalized_names(names: Seq<Seq<char>>) -> Seq<Seq<char>>
    decreases names.len(),
{
    if names.len() == 0 {
        Seq::empty()
    } else {
        let rest = normalized_names(names.drop_last());
        match normalize_name(names.last()) {
            Some(l) => rest.push(l),
            None => rest,
        }
    }
}

/// The views of a list of strings.
pub open spec fn string_views(v: Seq<String>) -> Seq<Seq<char>> {
    v.map_values(|s: String| s@)
}

/// Whether a filter with lowercased `names` and `pids` lets through a message
/// of process `pid` named `name`.
pub open spec fn allows_spec(
    names: Seq<Seq<char>>,
    pids: Seq<u32>,
    pid: u32,
    name: Option<Seq<char>>,
) -> bool {
    ||| names.len() == 0 && pids.len() == 0
    ||| pids.contains(pid)
    ||| (name matches Some(n) && names.contains(lowercase(n)))
}

/// A compiled filter; the process names are kept trimmed and lowercased.
#[derive(Debug, Clone)]
pub struct Filter {
    names_lower: Vec<String>,
    pids: Vec<u32>,
}

impl Filter {
    /// The lowercased names the filter compares against.
    pub closed spec fn names(&self) -> Seq<Seq<char>> {
        string_views(self.names_lower@)
    }

    /// The process ids the filter lets through.
    pub closed spec fn pid_list(&self) -> Seq<u32> {
        self.pids@
    }

    /// Builds the filter of a configuration: each name trimmed and lowercased,
    /// blank names dropped; the process ids as they are.
    pub fn new(cfg: &FilterConfig) -> (f: Filter)
        ensures
            f.names() == normalized_names(string_views(cfg.process_names@)),
            f.pid_list() == cfg.pids@,
    {
        let mut names_lower: Vec<String> = Vec::new();
        let n = cfg.process_names.len();
        let ghost src = string_views(cfg.process_names@);
        for i in 0..n
            invariant
                n == cfg.process_names@.len(),
                src == string_views(cfg.process_names@),
                string_views(names_lower@) == normalized_names(src.take(i as int)),
        {
            let name = &cfg.process_names[i];
            let t = trim_str(name.as_str());
            proof {
                assert(src.take(i + 1).drop_last() =~= src.take(i as int));
                assert(src.take(i + 1).last() == name@);
            }
            if !t.is_empty() {
                let l = to_lowercase(t);
                if !l.as_str().is_empty() {
                    let ghost before = names_lower@;
                    names_lower.push(l);
                    proof {
                        assert(string_views(names_lower@) =~= string_views(before).push(l@));
                    }
                }
            }
        }
        proof {
            assert(src.take(n as int) =~= src);
        }
        Filter { names_lower, pids: cfg.pids.clone() }
    }

    /// No condition is set: everything passes.
    pub fn is_pass_all(&self) -> (r: bool)
        ensures
            r == (self.names().len() == 0 && self.pid_list().len() == 0),
    {
        self.names_lower.len() == 0 && self.pids.len() == 0
    }

    /// Whether a message of process `pid` named `process_name` is captured.
    pub fn allows(&self, pid: u32, process_name: Option<&str>) -> (r: bool)
        ensures
            r == allows_spec(
                self.names(),
                self.pid_list(),
                pid,
                match process_name {
                    Some(n) => Some(n@),
                    None => None,
                },
            ),
    {
        if self.is_pass_all() {
            return true;
        }
        let np = self.pids.len();
        for i in 0..np
            invariant
                np == self.pids@.len(),
                forall|k: int| 0 <= k < i ==> self.pids@[k] != pid,
        {
            if self.pids[i] == pid {
                proof {
                    assert(self.pids@[i as int] == pid);
                }
                return true;
            }
        }
        proof {
            assert(!self.pids@.contains(pid));
        }
        if let Some(name) = process_name {
            let name_lower = to_lowercase(name);
            let nn = self.names_lower.len();
            for i in 0..nn
                invariant
                    nn == self.names_lower@.len(),
                    nn == self.names().len(),
                    name_lower@ == lowercase(name@),
                    process_name == Some(name),
                    forall|k: int| 0 <= k < i ==> self.names()[k] != name_lower@,
            {
                if self.names_lower[i] == name_lower {
                    proof {
                        assert(self.names()[i as int] == name_lower@);
                        assert(self.names().contains(lowercase(name@)));
                    }
                    return true;
                }
            }
            proof {
                assert(!self.names().contains(name_lower@));
            }
        }
        false
    }
}

/// With no name and no process id configured, every message passes.
pub proof fn law_empty_filter_passes_all(
    names: Seq<Seq<char>>,
    pids: Seq<u32>,
    pid: u32,
    name: Option<Seq<char>>,
)
    requires
        names.len() == 0,
        pids.len() == 0,
    ensures
        allows_spec(names, pids, pid, name),
{
}

/// A listed process id passes, whatever the process is named.
pub proof fn law_listed_pid_passes(
    names: Seq<Seq<char>>,
    pids: Seq<u32>,
    pid: u32,
    name: Option<Seq<char>>,
)
    requires
        pids.contains(pid),
    ensures
        allows_spec(names, pids, pid, name),
{
}

/// Names are compared without regard to case: two names with the same
/// lowercase form are let through alike.
pub proof fn law_names_compare_without_case(
    names: Seq<Seq<char>>,
    pids: Seq<u32>,
    pid: u32,
    a: Seq<char>,
    b: Seq<char>,
)
    requires
        lowercase(a) == lowercase(b),
    ensures
        allows_spec(names, pids, pid, Some(a)) == allows_spec(names, pids, pid, Some(b)),
{
}

/// Every configured name that is not blank is kept, trimmed and lowercased, and
/// every kept name comes from a configured one.
pub proof fn law_every_configured_name_is_kept(names: Seq<Seq<char>>)
    ensures
        forall|i: int|
            0 <= i < names.len() && trim(#[trigger] names[i]).len() > 0 && lowercase(
                trim(names[i]),
            ).len() > 0 ==> normalized_names(names).contains(lowercase(trim(names[i]))),
        forall|j: int|
            0 <= j < normalized_names(names).len() ==> exists|i: int|
                0 <= i < names.len() && #[trigger] normalized_names(names)[j] == lowercase(
                    trim(names[i]),
                ),
    decreases names.len(),
{
    if names.len() > 0 {
        let p = names.drop_last();
        law_every_configured_name_is_kept(p);
        let rest = normalized_names(p);
        let all = normalized_names(names);
        assert forall|i: int|
            0 <= i < names.len() && trim(#[trigger] names[i]).len() > 0 && lowercase(
                trim(names[i]),
            ).len() > 0 implies all.contains(lowercase(trim(names[i]))) by {
            if i < p.len() {
                assert(p[i] == names[i]);
                let j = choose|j: int| 0 <= j < rest.len() && rest[j] == lowercase(trim(p[i]));
                assert(all[j] == rest[j]);
            } else {
                assert(all.last() == lowercase(trim(names[i])));
            }
        }
        assert forall|j: int| 0 <= j < all.len() implies exists|i: int|
            0 <= i < names.len() && #[trigger] all[j] == lowercase(trim(names[i])) by {
            if j < rest.len() {
                assert(all[j] == rest[j]);
                let i = choose|i: int| 0 <= i < p.len() && rest[j] == lowercase(trim(p[i]));
                assert(p[i] == names[i]);
            } else {
                assert(all[j] == lowercase(trim(names[names.len() - 1])));
            }
        }
    }
}

/// A process whose name matches a configured name, without regard to case and
/// to the configured name's outer whitespace, is let through.
pub proof fn law_configured_name_is_let_through(
    names: Seq<Seq<char>>,
    pids: Seq<u32>,
    pid: u32,
    name: Seq<char>,
    i: int,
)
    requires
        0 <= i < names.len(),
        trim(names[i]).len() > 0,
        lowercase(trim(names[i])).len() > 0,
        lowercase(name) == lowercase(trim(names[i])),
    ensures
        allows_spec(normalized_names(names), pids, pid, Some(name)),
{
    law_every_configured_name_is_kept(names);
    assert(trim(names[i]).len() > 0);
}

/// Blank configured names are ignored: names made of whitespace only give a
/// filter without names.
pub proof fn law_blank_names_are_ignored(names: Seq<Seq<char>>)
    requires
        forall|i: int| 0 <= i < names.len() ==> all_white_space(#[trigger] names[i]),
    ensures
        normalized_names(names).len() == 0,
    decreases names.len(),
{
    if names.len() > 0 {
        lemma_trim_empty_iff_blank(names.last());
        law_blank_names_are_ignored(names.drop_last());
    }
}

} // verus!
