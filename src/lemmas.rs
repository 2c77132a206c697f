use vstd::prelude::*;

use crate::engine::{
    engine_wf, enter_spec, established_spec, leave_measures, leave_spec, link_labels_spec,
    sat_sub, torn_down_spec, EngineView,
};
use crate::graph::{resolve_from, resolve_spec, step_spec, Graph, Step};
use crate::metrics::{family_wf, family_with, handle_in, key_index, sat_add, FamilyView, LabelKey};

verus! {

/// After asking a family for the handle of `l`, the family holds `l` at that
/// handle, and asking again changes nothing and yields the same handle.
pub proof fn lemma_family_with_memoizes(f: FamilyView, l: LabelKey)
    requires
        family_wf(f),
    ensures
        family_wf(family_with(f, l)),
        key_index(family_with(f, l).keys, l) == handle_in(f, l),
        0 <= handle_in(f, l) < family_with(f, l).keys.len(),
        family_with(family_with(f, l), l) == family_with(f, l),
        handle_in(family_with(f, l), l) == handle_in(f, l),
{
    let f1 = family_with(f, l);
    if key_index(f.keys, l) >= 0 {
        let k = key_index(f.keys, l);
        assert(exists|i: int| 0 <= i < f.keys.len() && f.keys[i] == l) by {
            assert(k != -1);
        }
    } else {
        let n = f.keys.len() as int;
        assert(f1.keys[n] == l);
        assert forall|a: int, b: int| 0 <= a < b < f1.keys.len() implies f1.keys[a]
            != f1.keys[b] by {
            if b == n {
                assert(f1.keys[a] == f.keys[a]);
                if f.keys[a] == l {
                    assert(exists|i: int| 0 <= i < f.keys.len() && f.keys[i] == l);
                }
            }
        }
        assert(exists|i: int| 0 <= i < f1.keys.len() && f1.keys[i] == l);
        let k = key_index(f1.keys, l);
        assert(0 <= k < f1.keys.len() && f1.keys[k] == l);
        if k < n {
            assert(f.keys[k] == l);
            assert(exists|i: int| 0 <= i < f.keys.len() && f.keys[i] == l);
        }
        assert(k == n);
    }
}

/// A complete enter/leave pair on a measured link, with no other link
/// completing on the thread in between, reports exactly the time between the
/// two events: the gauge reads it, the sum grows by it and the count by one,
/// and no other series changes.
pub proof fn lemma_enter_leave_reports_span(
    e: EngineView,
    src: nat,
    ts1: u64,
    ts2: u64,
    adj: u64,
)
    requires
        engine_wf(e),
        e.entries.contains_key(src),
        0 < ts1 <= ts2,
    ensures
        ({
            let (e1, a1) = enter_spec(e, src, ts1, adj);
            let (e2, a2) = leave_spec(e1, src, ts2, a1);
            let h = e.entries[src].handles;
            &&& leave_measures(e1, src)
            &&& e2.last.values[h.last_value as int] == ts2 - ts1
            &&& e2.sum.values[h.cumulative_sum as int] == sat_add(
                e.sum.values[h.cumulative_sum as int],
                (ts2 - ts1) as u64,
            )
            &&& e2.count.values[h.cumulative_count as int] == sat_add(
                e.count.values[h.cumulative_count as int],
                1,
            )
            &&& forall|i: int|
                0 <= i < e.last.values.len() && i != h.last_value ==> e2.last.values[i]
                    == e.last.values[i]
            &&& forall|i: int|
                0 <= i < e.sum.values.len() && i != h.cumulative_sum ==> e2.sum.values[i]
                    == e.sum.values[i]
            &&& forall|i: int|
                0 <= i < e.count.values.len() && i != h.cumulative_count ==> e2.count.values[i]
                    == e.count.values[i]
            &&& e2.last.values.len() == e.last.values.len()
            &&& e2.sum.values.len() == e.sum.values.len()
            &&& e2.count.values.len() == e.count.values.len()
            &&& e2.last.keys == e.last.keys
            &&& e2.sum.keys == e.sum.keys
            &&& e2.count.keys == e.count.keys
            &&& e2.entries[src].pending_timestamp == 0
            &&& a2 == ts2 - ts1
        }),
{
    let (e1, a1) = enter_spec(e, src, ts1, adj);
    assert(e1.entries[src].handles == e.entries[src].handles);
    assert(a1 == 0);
}

/// The element latency a leave event reports lies between 0 and the raw
/// span since the matching enter event, whatever the thread's accumulator
/// holds by then.
pub proof fn lemma_element_latency_bounded(e: EngineView, src: nat, ts1: u64, ts2: u64, adj: u64)
    requires
        engine_wf(e),
        e.entries.contains_key(src),
        0 < ts1 <= ts2,
    ensures
        ({
            let e1 = enter_spec(e, src, ts1, 0).0;
            let e2 = leave_spec(e1, src, ts2, adj).0;
            let v = e2.last.values[e.entries[src].handles.last_value as int];
            &&& leave_measures(e1, src)
            &&& v == sat_sub((ts2 - ts1) as u64, adj)
            &&& 0 <= v <= ts2 - ts1
        }),
{
    let e1 = enter_spec(e, src, ts1, 0).0;
    assert(e1.entries[src].handles == e.entries[src].handles);
}

/// A second teardown report right after the first changes nothing, and a
/// teardown leaves the entries of other source endpoints alone.
pub proof fn lemma_teardown_idempotent(e: EngineView, src: nat, sink: u64, ok: bool)
    ensures
        torn_down_spec(torn_down_spec(e, src, sink, ok), src, sink, ok) == torn_down_spec(
            e,
            src,
            sink,
            ok,
        ),
        forall|k: nat|
            k != src ==> (#[trigger] torn_down_spec(e, src, sink, ok).entries.contains_key(k)
                == e.entries.contains_key(k) && torn_down_spec(e, src, sink, ok).entries[k]
                == e.entries[k]),
        torn_down_spec(e, src, sink, ok).last == e.last,
        torn_down_spec(e, src, sink, ok).sum == e.sum,
        torn_down_spec(e, src, sink, ok).count == e.count,
{
}

/// Resolution depends on the graph's contents alone: two graphs with the
/// same nodes and endpoints resolve every endpoint alike.
pub proof fn lemma_resolve_depends_on_topology(g1: &Graph, g2: &Graph, p: int)
    requires
        g1.nodes@ == g2.nodes@,
        g1.pads@ == g2.pads@,
    ensures
        resolve_spec(g1, p) == resolve_spec(g2, p),
{
    assert(resolve_spec(g1, p) == resolve_spec(g2, p)) by {
        lemma_resolve_from_same(g1, g2, p, g1.pads@.len() as nat);
    }
}

proof fn lemma_resolve_from_same(g1: &Graph, g2: &Graph, p: int, fuel: nat)
    requires
        g1.nodes@ == g2.nodes@,
        g1.pads@ == g2.pads@,
    ensures
        resolve_from(g1, p, fuel) == resolve_from(g2, p, fuel),
    decreases fuel,
{
    if fuel > 0 {
        match step_spec(g1, p) {
            Step::Next(q) => lemma_resolve_from_same(
                g1,
                g2,
                q as int,
                (fuel - 1) as nat,
            ),
            _ => {},
        }
    }
}

/// The state after linking `src -> sink`, then `n` times tearing the link
/// down and linking it again.
pub open spec fn relinked(e: EngineView, g: &Graph, src: int, sink: int, n: nat) -> EngineView
    decreases n,
{
    if n == 0 {
        established_spec(e, g, src, sink, true)
    } else {
        let prev = relinked(e, g, src, sink, (n - 1) as nat);
        established_spec(
            torn_down_spec(prev, src as nat, g.pads@[sink].handle, true),
            g,
            src,
            sink,
            true,
        )
    }
}

/// Relinking the same two endpoints any number of times leaves the engine
/// exactly as the first link did: the entry keeps its handles and no series
/// is added to any family.
pub proof fn lemma_relink_reuses_series(e: EngineView, g: &Graph, src: int, sink: int, n: nat)
    requires
        engine_wf(e),
        link_labels_spec(g, src, sink) is Some,
    ensures
        relinked(e, g, src, sink, n) == established_spec(e, g, src, sink, true),
    decreases n,
{
    if n > 0 {
        lemma_relink_reuses_series(e, g, src, sink, (n - 1) as nat);
        let l = link_labels_spec(g, src, sink)->Some_0;
        let e1 = established_spec(e, g, src, sink, true);
        let t = torn_down_spec(e1, src as nat, g.pads@[sink].handle, true);
        lemma_family_with_memoizes(e.last, l);
        lemma_family_with_memoizes(e.sum, l);
        lemma_family_with_memoizes(e.count, l);
        let e2 = established_spec(t, g, src, sink, true);
        assert(e2.entries =~= e1.entries);
    }
}

/// No hook ever lowers a sample count or removes a series: every count
/// stays or grows, and each family's labels keep their handles.
pub proof fn lemma_counts_never_decrease(
    e: EngineView,
    g: &Graph,
    src: nat,
    sink: nat,
    sink_value: u64,
    ok: bool,
    ts: u64,
    adj: u64,
)
    requires
        engine_wf(e),
    ensures
        keeps_counts(e, established_spec(e, g, src as int, sink as int, ok)),
        keeps_counts(e, torn_down_spec(e, src, sink_value, ok)),
        keeps_counts(e, enter_spec(e, src, ts, adj).0),
        keeps_counts(e, leave_spec(e, src, ts, adj).0),
{
    match link_labels_spec(g, src as int, sink as int) {
        Some(l) => {
            lemma_family_with_memoizes(e.count, l);
            lemma_family_with_memoizes(e.last, l);
            lemma_family_with_memoizes(e.sum, l);
        },
        None => {},
    }
}

/// `e2` keeps every series of `e1` at its handle, with a count no lower.
pub open spec fn keeps_counts(e1: EngineView, e2: EngineView) -> bool {
    &&& e2.count.keys.len() >= e1.count.keys.len()
    &&& e2.count.values.len() >= e1.count.values.len()
    &&& forall|i: int|
        0 <= i < e1.count.keys.len() ==> #[trigger] e2.count.keys[i] == e1.count.keys[i]
    &&& forall|i: int|
        0 <= i < e1.count.values.len() ==> #[trigger] e2.count.values[i] >= e1.count.values[i]
}

} // verus!
