//! Liveness filtering over the externally maintained registry: entries
//! whose process no longer exists are treated as logically absent. The
//! file read, the parse, and the per-process probe happen outside; this
//! module keeps exactly the entries whose probe succeeded, in order.

use vstd::prelude::*;

use crate::types::ProxySessionEntry;

verus! {

/// The entries whose liveness flag is set, in their original order.
pub open spec fn live_filter(es: Seq<ProxySessionEntry>, alive: Seq<bool>) -> Seq<
    ProxySessionEntry,
>
    decreases es.len(),
{
    if es.len() == 0 {
        Seq::empty()
    } else {
        live_filter(es.drop_last(), alive.drop_last()) + if alive[es.len() - 1] {
            seq![es.last()]
        } else {
            Seq::empty()
        }
    }
}

/// A dropped entry is gone: nothing with its flag unset is in the result.
pub proof fn lemma_live_filter_excludes(es: Seq<ProxySessionEntry>, alive: Seq<bool>, i: int)
    requires
        es.len() == alive.len(),
        0 <= i < es.len(),
        !alive[i],
        forall|j: int| 0 <= j < es.len() && j != i ==> es[j] != es[i],
    ensures
        !live_filter(es, alive).contains(es[i]),
    decreases es.len(),
{
    if es.len() > 0 {
        if i < es.len() - 1 {
            lemma_live_filter_excludes(es.drop_last(), alive.drop_last(), i);
            assert(es.drop_last()[i] == es[i]);
            assert forall|j: int| 0 <= j < es.len() - 1 && j != i implies es.drop_last()[j]
                != es.drop_last()[i] by {
                assert(es.drop_last()[j] == es[j]);
            }
            if alive[es.len() - 1] {
                assert(es.last() != es[i]);
            }
        } else {
            assert forall|k: int| 0 <= k < live_filter(es, alive).len() implies live_filter(
                es,
                alive,
            )[k] != es[i] by {
                let fl = live_filter(es.drop_last(), alive.drop_last());
                assert(live_filter(es, alive) =~= fl);
                lemma_live_filter_is_subset(es.drop_last(), alive.drop_last(), k);
            }
        }
    }
}

/// Everything the filter keeps comes from the input.
proof fn lemma_live_filter_is_subset(es: Seq<ProxySessionEntry>, alive: Seq<bool>, k: int)
    requires
        0 <= k < live_filter(es, alive).len(),
    ensures
        exists|j: int| 0 <= j < es.len() && es[j] == live_filter(es, alive)[k],
    decreases es.len(),
{
    if es.len() > 0 {
        let prefix = live_filter(es.drop_last(), alive.drop_last());
        if k < prefix.len() {
            lemma_live_filter_is_subset(es.drop_last(), alive.drop_last(), k);
            let j = choose|j: int|
                0 <= j < es.drop_last().len() && es.drop_last()[j] == prefix[k];
            assert(es[j] == live_filter(es, alive)[k]);
        } else {
            assert(live_filter(es, alive)[k] == es.last());
            assert(es[es.len() - 1] == live_filter(es, alive)[k]);
        }
    }
}

/// Clone one registry entry, keeping its value exactly.
fn clone_entry(e: &ProxySessionEntry) -> (r: ProxySessionEntry)
    ensures
        r == *e,
{
    ProxySessionEntry {
        session_id: e.session_id.clone(),
        port: e.port,
        control_port: e.control_port,
        pid: e.pid,
        started_at: e.started_at,
        cwd: match &e.cwd {
            Option::Some(s) => Option::Some(s.clone()),
            Option::None => Option::None,
        },
    }
}

/// Keep exactly the entries whose liveness probe succeeded, in order. The
/// probe's verdicts arrive as one flag per entry.
pub fn filter_live(entries: &Vec<ProxySessionEntry>, alive: &Vec<bool>) -> (r: Vec<
    ProxySessionEntry,
>)
    requires
        entries@.len() == alive@.len(),
    ensures
        r@ == live_filter(entries@, alive@),
{
    let mut r: Vec<ProxySessionEntry> = Vec::new();
    proof {
        assert(r@ =~= live_filter(entries@.take(0), alive@.take(0)));
    }
    let mut i: usize = 0;
    while i < entries.len()
        invariant
            i <= entries.len(),
            entries@.len() == alive@.len(),
            r@ == live_filter(entries@.take(i as int), alive@.take(i as int)),
        decreases entries.len() - i,
    {
        if alive[i] {
            r.push(clone_entry(&entries[i]));
        }
        proof {
            assert(entries@.take(i + 1).drop_last() =~= entries@.take(i as int));
            assert(alive@.take(i + 1).drop_last() =~= alive@.take(i as int));
            assert(entries@.take(i + 1).last() == entries@[i as int]);
            assert(alive@.take(i + 1)[entries@.take(i + 1).len() - 1] == alive@[i as int]);
            assert(r@ =~= live_filter(entries@.take(i + 1), alive@.take(i + 1)));
        }
        i += 1;
    }
    proof {
        assert(entries@.take(entries@.len() as int) =~= entries@);
        assert(alive@.take(alive@.len() as int) =~= alive@);
    }
    r
}

} // verus!
