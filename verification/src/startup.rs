//! The startup record: which processes this run captures.

use vstd::prelude::*;
use vstd::string::*;

use crate::config::FilterConfig;
use crate::filter::{normalized_names, string_views, Filter};
use crate::text::{decimal, u32_to_decimal};

verus! {

/// What `format!("{:?}", s)` writes for the string `s`: `s` in double quotes,
/// special characters escaped.
pub uninterp spec fn debug_text(s: Seq<char>) -> Seq<char>;

/// Writes `s` as `Debug` does, through `format!("{:?}", ..)`; named by `debug_text`.
#[verifier::external_body]
fn debug_str(s: &str) -> (r: String)
    ensures
        r@ == debug_text(s@),
{
    format!("{:?}", s)
}

/// `items` joined by `", "`.
pub open spec fn join_items(items: Seq<Seq<char>>) -> Seq<char>
    decreases items.len(),
{
    if items.len() == 0 {
        Seq::empty()
    } else if items.len() == 1 {
        items[0]
    } else {
        join_items(items.drop_last()) + ", "@ + items.last()
    }
}

/// A list as `Debug` writes it: `[a, b, c]`.
pub open spec fn debug_list(items: Seq<Seq<char>>) -> Seq<char> {
    "["@ + join_items(items) + "]"@
}

/// The startup record for a filter configuration with process `names` and
/// `pids`: every process is captured when the filter built from them has no
/// name (blank names are dropped) and no id.
pub open spec fn startup_banner_spec(names: Seq<Seq<char>>, pids: Seq<u32>) -> Seq<char> {
    if normalized_names(names).len() == 0 && pids.len() == 0 {
        "loghound 已启动，采集全部进程的 OutputDebugString"@
    } else {
        "loghound 已启动，采集 进程名="@ + debug_list(names.map_values(|n: Seq<char>| debug_text(n)))
            + " PID="@ + debug_list(pids.map_values(|p: u32| decimal(p as nat)))
            + " 的 OutputDebugString"@
    }
}

/// Writes `items` as `Debug` writes a list, `[a, b, c]`.
fn write_list(items: &Vec<String>) -> (r: String)
    ensures
        r@ == debug_list(string_views(items@)),
{
    let ghost views = string_views(items@);
    let mut out = String::from_str("[");
    let n = items.len();
    for i in 0..n
        invariant
            n == items@.len(),
            views == string_views(items@),
            out@ == "["@ + join_items(views.take(i as int)),
    {
        proof {
            assert(views.take(i + 1).drop_last() =~= views.take(i as int));
            assert(views.take(i + 1).last() == items@[i as int]@);
            if i == 0 {
                assert(views.take(1) =~= seq![items@[0]@]);
                assert(join_items(views.take(0)) =~= Seq::<char>::empty());
            }
        }
        if i > 0 {
            out.append(", ");
        }
        out.append(items[i].as_str());
        proof {
            if i == 0 {
                assert(out@ =~= "["@ + join_items(views.take(1)));
            } else {
                assert(out@ =~= "["@ + join_items(views.take(i + 1)));
            }
        }
    }
    proof {
        assert(views.take(n as int) =~= views);
    }
    out.append("]");
    out
}

/// The startup record of a run with `filter`: it says that every process is
/// captured when the filter lets everything through, else it lists the
/// configured process names and ids.
pub fn startup_banner(filter: &FilterConfig) -> (s: String)
    ensures
        s@ == startup_banner_spec(string_views(filter.process_names@), filter.pids@),
{
    let compiled = Filter::new(filter);
    if compiled.is_pass_all() {
        return String::from_str("loghound 已启动，采集全部进程的 OutputDebugString");
    }
    let mut names: Vec<String> = Vec::new();
    let nn = filter.process_names.len();
    for i in 0..nn
        invariant
            nn == filter.process_names@.len(),
            names@.len() == i,
            string_views(names@) == string_views(filter.process_names@).take(i as int).map_values(
                |n: Seq<char>| debug_text(n),
            ),
    {
        let ghost before = names@;
        names.push(debug_str(filter.process_names[i].as_str()));
        proof {
            let want = string_views(filter.process_names@).take(i + 1).map_values(
                |n: Seq<char>| debug_text(n),
            );
            let prev = string_views(filter.process_names@).take(i as int).map_values(
                |n: Seq<char>| debug_text(n),
            );
            assert forall|k: int| 0 <= k < i + 1 implies #[trigger] string_views(names@)[k]
                == want[k] by {
                if k < i {
                    assert(names@[k] == before[k]);
                    assert(string_views(before)[k] == prev[k]);
                }
            }
            assert(string_views(names@) =~= want);
        }
    }
    let mut pids: Vec<String> = Vec::new();
    let np = filter.pids.len();
    for i in 0..np
        invariant
            np == filter.pids@.len(),
            pids@.len() == i,
            string_views(pids@) == filter.pids@.take(i as int).map_values(
                |p: u32| decimal(p as nat),
            ),
    {
        let ghost before = pids@;
        pids.push(u32_to_decimal(filter.pids[i]));
        proof {
            let want = filter.pids@.take(i + 1).map_values(|p: u32| decimal(p as nat));
            let prev = filter.pids@.take(i as int).map_values(|p: u32| decimal(p as nat));
            assert forall|k: int| 0 <= k < i + 1 implies #[trigger] string_views(pids@)[k]
                == want[k] by {
                if k < i {
                    assert(pids@[k] == before[k]);
                    assert(string_views(before)[k] == prev[k]);
                }
            }
            assert(string_views(pids@) =~= want);
        }
    }
    proof {
        assert(string_views(filter.process_names@).take(nn as int) =~= string_views(
            filter.process_names@,
        ));
        assert(filter.pids@.take(np as int) =~= filter.pids@);
    }
    let mut s = String::from_str("loghound 已启动，采集 进程名=");
    let names_text = write_list(&names);
    s.append(names_text.as_str());
    s.append(" PID=");
    let pids_text = write_list(&pids);
    s.append(pids_text.as_str());
    s.append(" 的 OutputDebugString");
    s
}

} // verus!
