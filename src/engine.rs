use vstd::prelude::*;

use crate::cache::{CacheEntry, MetricHandles, PadPairCache};
use crate::graph::{
    qualified_spec, resolve_from, resolve_spec, step_spec, Graph, Owner, PadKind,
    ResolvedEndpoint, Step,
};
use crate::metrics::{
    family_wf, family_with, handle_in, sat_add, FamilyView, LabelKey, Labels, MetricFamily,
};

verus! {

/// Identity values at or below this are not endpoints: the host is known to
/// fire the teardown hook with such values in the sink slot.
pub const PAD_HANDLE_SENTINEL: u64 = 4096;

/// Difference that stops at zero.
pub open spec fn sat_sub(a: u64, b: u64) -> u64 {
    if a >= b {
        (a - b) as u64
    } else {
        0
    }
}

/// Latency attributable to one element: the link's span less the span
/// already measured downstream on the same thread, never below zero.
pub fn compute_element_latency(span_diff: u64, ts_latency: u64) -> (r: u64)
    ensures
        r == sat_sub(span_diff, ts_latency),
{
    span_diff.saturating_sub(ts_latency)
}

/// The per-thread accumulator: the raw span of the link most recently
/// completed on this thread, or 0 right after a span began.
#[derive(Clone, Copy, Debug, PartialEq, Eq, Structural)]
pub struct SpanAdjuster {
    pub span_latency: u64,
}

impl SpanAdjuster {
    pub fn new() -> (r: SpanAdjuster)
        ensures
            r.span_latency == 0,
    {
        SpanAdjuster { span_latency: 0 }
    }
}

/// The abstract state of the engine: the cache entries by source endpoint
/// index and the three metric families.
pub struct EngineView {
    pub entries: Map<nat, CacheEntry>,
    pub last: FamilyView,
    pub sum: FamilyView,
    pub count: FamilyView,
}

pub open spec fn handles_valid(e: EngineView, h: MetricHandles) -> bool {
    &&& h.last_value < e.last.values.len()
    &&& h.cumulative_sum < e.sum.values.len()
    &&& h.cumulative_count < e.count.values.len()
}

pub open spec fn engine_wf(e: EngineView) -> bool {
    &&& family_wf(e.last)
    &&& family_wf(e.sum)
    &&& family_wf(e.count)
    &&& forall|k: nat| #[trigger] e.entries.contains_key(k) ==> handles_valid(e, e.entries[k].handles)
}

/// The labels of a link between resolved endpoints `rs` and `rk`.
pub open spec fn labels_spec(g: &Graph, rs: ResolvedEndpoint, rk: ResolvedEndpoint) -> LabelKey {
    (g.nodes@[rs.node as int].name@, qualified_spec(g, rs.pad as int), qualified_spec(g, rk.pad as int))
}

/// The labels under which the link `src -> sink` is measured, or `None`
/// when it is not measured: an index that is no endpoint, a proxy source,
/// an endpoint that does not resolve, or a container on either side.
pub open spec fn link_labels_spec(g: &Graph, src: int, sink: int) -> Option<LabelKey> {
    if !(0 <= src < g.pads@.len() && 0 <= sink < g.pads@.len()) {
        None
    } else if g.pads@[src].kind is Proxy {
        None
    } else {
        match (resolve_spec(g, src), resolve_spec(g, sink)) {
            (Some(rs), Some(rk)) => if g.nodes@[rs.node as int].container
                || g.nodes@[rk.node as int].container {
                None
            } else {
                Some(labels_spec(g, rs, rk))
            },
            _ => None,
        }
    }
}

/// The state after the host reports the link `src -> sink` established
/// (`ok` false: the link attempt failed).
pub open spec fn established_spec(e: EngineView, g: &Graph, src: int, sink: int, ok: bool) -> EngineView {
    if !ok {
        e
    } else {
        match link_labels_spec(g, src, sink) {
            None => e,
            Some(l) => {
                let h = MetricHandles {
                    last_value: handle_in(e.last, l) as usize,
                    cumulative_sum: handle_in(e.sum, l) as usize,
                    cumulative_count: handle_in(e.count, l) as usize,
                };
                EngineView {
                    entries: e.entries.insert(
                        src as nat,
                        CacheEntry { pending_timestamp: 0, peer: g.pads@[sink].handle, handles: h },
                    ),
                    last: family_with(e.last, l),
                    sum: family_with(e.sum, l),
                    count: family_with(e.count, l),
                }
            },
        }
    }
}

/// True when a teardown report for `src` with sink value `sink` clears the
/// entry of `src`.
pub open spec fn teardown_matches(e: EngineView, src: nat, sink: u64, ok: bool) -> bool {
    &&& ok
    &&& sink > PAD_HANDLE_SENTINEL
    &&& e.entries.contains_key(src)
    &&& e.entries[src].peer == sink
}

/// The state after the host reports the link from `src` torn down.
pub open spec fn torn_down_spec(e: EngineView, src: nat, sink: u64, ok: bool) -> EngineView {
    if teardown_matches(e, src, sink, ok) {
        EngineView { entries: e.entries.remove(src), ..e }
    } else {
        e
    }
}

/// State and accumulator after a unit of work enters the link of `src` at `ts`.
pub open spec fn enter_spec(e: EngineView, src: nat, ts: u64, adj: u64) -> (EngineView, u64) {
    if e.entries.contains_key(src) {
        (
            EngineView {
                entries: e.entries.insert(
                    src,
                    CacheEntry { pending_timestamp: ts, ..e.entries[src] },
                ),
                ..e
            },
            0,
        )
    } else {
        (e, adj)
    }
}

/// True when a leave event on `src` completes a measurement.
pub open spec fn leave_measures(e: EngineView, src: nat) -> bool {
    e.entries.contains_key(src) && e.entries[src].pending_timestamp != 0
}

/// The raw span that a leave event at `ts` on `src` measures.
pub open spec fn raw_span_spec(e: EngineView, src: nat, ts: u64) -> u64 {
    sat_sub(ts, e.entries[src].pending_timestamp)
}

/// State and accumulator after a unit of work leaves the link of `src` at `ts`.
pub open spec fn leave_spec(e: EngineView, src: nat, ts: u64, adj: u64) -> (EngineView, u64) {
    if leave_measures(e, src) {
        let ent = e.entries[src];
        let h = ent.handles;
        let raw = raw_span_spec(e, src, ts);
        let el = sat_sub(raw, adj);
        (
            EngineView {
                entries: e.entries.insert(src, CacheEntry { pending_timestamp: 0, ..ent }),
                last: FamilyView {
                    values: e.last.values.update(h.last_value as int, el),
                    ..e.last
                },
                sum: FamilyView {
                    values: e.sum.values.update(
                        h.cumulative_sum as int,
                        sat_add(e.sum.values[h.cumulative_sum as int], el),
                    ),
                    ..e.sum
                },
                count: FamilyView {
                    values: e.count.values.update(
                        h.cumulative_count as int,
                        sat_add(e.count.values[h.cumulative_count as int], 1),
                    ),
                    ..e.count
                },
            },
            raw,
        )
    } else {
        (e, adj)
    }
}

proof fn lemma_resolve_from_concrete(g: &Graph, p: int, fuel: nat)
    ensures
        resolve_from(g, p, fuel) matches Some(r) ==> {
            &&& 0 <= r.pad < g.pads@.len()
            &&& 0 <= r.node < g.nodes@.len()
            &&& g.pads@[r.pad as int].kind is Concrete
            &&& g.pads@[r.pad as int].owner == Owner::Node(r.node)
        },
    decreases fuel,
{
    assert(g.pads@.len() == g.pads.len());
    if fuel > 0 {
        match step_spec(g, p) {
            Step::Next(q) => lemma_resolve_from_concrete(g, q as int, (fuel - 1) as nat),
            _ => {},
        }
    }
}

/// What `resolve` returns is a concrete endpoint owned by a valid node.
pub proof fn lemma_resolved_is_concrete(g: &Graph, p: int)
    ensures
        resolve_spec(g, p) matches Some(r) ==> {
            &&& 0 <= r.pad < g.pads@.len()
            &&& 0 <= r.node < g.nodes@.len()
            &&& g.pads@[r.pad as int].kind is Concrete
            &&& g.pads@[r.pad as int].owner == Owner::Node(r.node)
        },
{
    lemma_resolve_from_concrete(g, p, g.pads@.len() as nat);
}

/// Builds the labels of a link between two resolved endpoints.
fn link_labels(g: &Graph, rs: ResolvedEndpoint, rk: ResolvedEndpoint) -> (l: Labels)
    requires
        rs.node < g.nodes@.len(),
        rs.pad < g.pads@.len(),
        rk.pad < g.pads@.len(),
    ensures
        l@ == labels_spec(g, rs, rk),
{
    Labels {
        element: g.nodes[rs.node].name.clone(),
        src_pad: g.qualified_name(rs.pad),
        sink_pad: g.qualified_name(rk.pad),
    }
}

/// The pad-pair latency engine behind the `prom-latency` tracer: the cache
/// of measured links and the metric families they report to.
pub struct PromLatencyTracerImp {
    cache: PadPairCache,
    last: MetricFamily,
    sum: MetricFamily,
    count: MetricFamily,
}

impl PromLatencyTracerImp {
    pub closed spec fn view(&self) -> EngineView {
        EngineView {
            entries: self.cache.view(),
            last: self.last.view(),
            sum: self.sum.view(),
            count: self.count.view(),
        }
    }

    pub open spec fn wf(&self) -> bool {
        engine_wf(self.view())
    }

    pub fn new() -> (r: PromLatencyTracerImp)
        ensures
            r.wf(),
            r.view().entries == Map::<nat, CacheEntry>::empty(),
            r.view().last.keys.len() == 0,
            r.view().sum.keys.len() == 0,
            r.view().count.keys.len() == 0,
    {
        PromLatencyTracerImp {
            cache: PadPairCache::new(),
            last: MetricFamily::new(),
            sum: MetricFamily::new(),
            count: MetricFamily::new(),
        }
    }

    /// Checks the link `src -> sink` and returns the labels it is measured
    /// under, or `None` when it is not measured.
    pub fn link_labels_for(g: &Graph, src: usize, sink: usize) -> (r: Option<Labels>)
        ensures
            match r {
                Some(l) => link_labels_spec(g, src as int, sink as int) == Some(l@),
                None => link_labels_spec(g, src as int, sink as int) is None,
            },
    {
        if src >= g.pads.len() || sink >= g.pads.len() {
            return None;
        }
        if let PadKind::Proxy = g.pads[src].kind {
            return None;
        }
        let rs = match g.resolve(src) {
            Some(r) => r,
            None => {
                return None;
            },
        };
        let rk = match g.resolve(sink) {
            Some(r) => r,
            None => {
                return None;
            },
        };
        proof {
            lemma_resolved_is_concrete(g, src as int);
            lemma_resolved_is_concrete(g, sink as int);
        }
        if g.nodes[rs.node].container || g.nodes[rk.node].container {
            return None;
        }
        Some(link_labels(g, rs, rk))
    }

    /// The link-established hook: creates the cache entry of `src` when the
    /// link is measured, with handles for its labels.
    pub fn on_link_established(&mut self, g: &Graph, src: usize, sink: usize, ok: bool)
        requires
            old(self).wf(),
        ensures
            final(self).wf(),
            final(self).view() == established_spec(old(self).view(), g, src as int, sink as int, ok),
    {
        if !ok {
            return;
        }
        let l = match Self::link_labels_for(g, src, sink) {
            Some(l) => l,
            None => {
                return;
            },
        };
        let ghost key = l@;
        let ghost e0 = self.view();
        let l1 = Labels { element: l.element.clone(), src_pad: l.src_pad.clone(), sink_pad: l.sink_pad.clone() };
        let l2 = Labels { element: l.element.clone(), src_pad: l.src_pad.clone(), sink_pad: l.sink_pad.clone() };
        let h_last = self.last.handle_for(l);
        let h_sum = self.sum.handle_for(l1);
        let h_count = self.count.handle_for(l2);
        let h = MetricHandles { last_value: h_last, cumulative_sum: h_sum, cumulative_count: h_count };
        let entry = CacheEntry { pending_timestamp: 0, peer: g.pads[sink].handle, handles: h };
        self.cache.put(src, entry);
        proof {
            let e1 = self.view();
            assert(e1 == established_spec(e0, g, src as int, sink as int, ok));
            assert forall|k: nat| #[trigger] e1.entries.contains_key(k) implies handles_valid(
                e1,
                e1.entries[k].handles,
            ) by {
                if k != src as nat {
                    assert(e0.entries.contains_key(k));
                    assert(handles_valid(e0, e0.entries[k].handles));
                }
            }
        }
    }

    /// The link-torn-down hook: detaches the entry of `src` only when the
    /// report is plausible and names the sink the entry was created for.
    pub fn on_link_torn_down(&mut self, src: usize, sink: u64, ok: bool)
        requires
            old(self).wf(),
        ensures
            final(self).wf(),
            final(self).view() == torn_down_spec(old(self).view(), src as nat, sink, ok),
    {
        if ok && sink > PAD_HANDLE_SENTINEL {
            match self.cache.get(src) {
                Some(ent) => {
                    if ent.peer == sink {
                        self.cache.remove(src);
                        assert(self.view() =~= torn_down_spec(old(self).view(), src as nat, sink, ok));
                    }
                },
                None => {},
            }
        }
    }

    /// A unit of work enters the link of `src` at `ts`: the entry is armed
    /// and the thread's accumulator starts a new span.
    pub fn on_enter(&mut self, src: usize, ts: u64, adj: &mut SpanAdjuster)
        requires
            old(self).wf(),
        ensures
            final(self).wf(),
            (final(self).view(), final(adj).span_latency) == enter_spec(
                old(self).view(),
                src as nat,
                ts,
                old(adj).span_latency,
            ),
    {
        match self.cache.get(src) {
            Some(ent) => {
                let ghost e0 = self.view();
                self.cache.put(src, CacheEntry { pending_timestamp: ts, ..ent });
                adj.span_latency = 0;
                proof {
                    let e1 = self.view();
                    assert forall|k: nat| #[trigger] e1.entries.contains_key(k) implies handles_valid(
                        e1,
                        e1.entries[k].handles,
                    ) by {
                        assert(e0.entries.contains_key(k));
                    }
                }
            },
            None => {},
        }
    }

    /// A unit of work leaves the link of `src` at `ts`: when the entry is
    /// armed, the element latency is reported to its three series, the
    /// entry is disarmed and the accumulator takes the raw span.
    /// Returns the reported element latency and the series it went to, or
    /// `None` when nothing was measured.
    pub fn on_leave(&mut self, src: usize, ts: u64, adj: &mut SpanAdjuster) -> (r: Option<(u64, MetricHandles)>)
        requires
            old(self).wf(),
        ensures
            final(self).wf(),
            (final(self).view(), final(adj).span_latency) == leave_spec(
                old(self).view(),
                src as nat,
                ts,
                old(adj).span_latency,
            ),
            r == (if leave_measures(old(self).view(), src as nat) {
                Some((
                    sat_sub(raw_span_spec(old(self).view(), src as nat, ts), old(adj).span_latency),
                    old(self).view().entries[src as nat].handles,
                ))
            } else {
                None
            }),
    {
        let ent = match self.cache.get(src) {
            Some(ent) => ent,
            None => {
                return None;
            },
        };
        if ent.pending_timestamp == 0 {
            return None;
        }
        let ghost e0 = self.view();
        assert(handles_valid(e0, ent.handles));
        let span_diff = ts.saturating_sub(ent.pending_timestamp);
        let el_diff = compute_element_latency(span_diff, adj.span_latency);
        let h = ent.handles;
        self.last.set(h.last_value, el_diff);
        self.sum.add(h.cumulative_sum, el_diff);
        self.count.add(h.cumulative_count, 1);
        self.cache.put(src, CacheEntry { pending_timestamp: 0, ..ent });
        adj.span_latency = span_diff;
        proof {
            let e1 = self.view();
            assert(e1.last == leave_spec(e0, src as nat, ts, old(adj).span_latency).0.last);
            assert(e1.sum == leave_spec(e0, src as nat, ts, old(adj).span_latency).0.sum);
            assert(e1.count == leave_spec(e0, src as nat, ts, old(adj).span_latency).0.count);
            assert forall|k: nat| #[trigger] e1.entries.contains_key(k) implies handles_valid(
                e1,
                e1.entries[k].handles,
            ) by {
                assert(e0.entries.contains_key(k));
            }
        }
        Some((el_diff, h))
    }

    /// The entry of `src`, if any.
    pub fn entry(&self, src: usize) -> (r: Option<CacheEntry>)
        ensures
            r == (if self.view().entries.contains_key(src as nat) {
                Some(self.view().entries[src as nat])
            } else {
                None
            }),
    {
        self.cache.get(src)
    }

    /// Current value of the last-latency gauge behind `h`.
    pub fn last_value(&self, h: usize) -> (r: u64)
        requires
            self.wf(),
            h < self.view().last.values.len(),
        ensures
            r == self.view().last.values[h as int],
    {
        self.last.value(h)
    }

    /// Current value of the cumulative-latency counter behind `h`.
    pub fn cumulative_sum(&self, h: usize) -> (r: u64)
        requires
            self.wf(),
            h < self.view().sum.values.len(),
        ensures
            r == self.view().sum.values[h as int],
    {
        self.sum.value(h)
    }

    /// Current value of the sample counter behind `h`.
    pub fn cumulative_count(&self, h: usize) -> (r: u64)
        requires
            self.wf(),
            h < self.view().count.values.len(),
        ensures
            r == self.view().count.values[h as int],
    {
        self.count.value(h)
    }

    /// The labels of the last-latency series behind `h`; the other two
    /// families give the same labels at the handles created with it.
    pub fn series_labels(&self, h: usize) -> (r: Labels)
        requires
            self.wf(),
            h < self.view().last.keys.len(),
        ensures
            r@ == self.view().last.keys[h as int],
    {
        self.last.labels_of(h)
    }

    /// Number of series in each family (they grow together).
    pub fn series_count(&self) -> (r: (usize, usize, usize))
        requires
            self.wf(),
        ensures
            r.0 == self.view().last.keys.len(),
            r.1 == self.view().sum.keys.len(),
            r.2 == self.view().count.keys.len(),
    {
        (self.last.len(), self.sum.len(), self.count.len())
    }
}

} // verus!
