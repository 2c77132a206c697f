use promlatency::cache::CacheEntry;
use promlatency::engine::{compute_element_latency, PromLatencyTracerImp, SpanAdjuster, PAD_HANDLE_SENTINEL};
use promlatency::graph::{Graph, Owner, PadDirection, PadKind, ResolvedEndpoint};

/// Adds a concrete endpoint owned by `node`, with host handle `handle`.
fn pad(g: &mut Graph, handle: u64, name: &str, dir: PadDirection, node: usize) -> usize {
    g.add_pad(handle, name.to_string(), dir, PadKind::Concrete, Owner::Node(node))
}

/// Two plain nodes A and B, A.src linked to B.sink.
fn two_nodes() -> (Graph, usize, usize) {
    let mut g = Graph::new();
    let a = g.add_node("A".to_string(), false);
    let b = g.add_node("B".to_string(), false);
    let a_src = pad(&mut g, 0x10000, "src", PadDirection::Src, a);
    let b_sink = pad(&mut g, 0x20000, "sink", PadDirection::Sink, b);
    g.link(a_src, b_sink);
    (g, a_src, b_sink)
}

fn entry(e: &PromLatencyTracerImp, src: usize) -> CacheEntry {
    e.entry(src).expect("entry expected")
}

fn readings(e: &PromLatencyTracerImp, src: usize) -> (u64, u64, u64) {
    let h = entry(e, src).handles;
    (
        e.last_value(h.last_value),
        e.cumulative_sum(h.cumulative_sum),
        e.cumulative_count(h.cumulative_count),
    )
}

#[test]
fn compute_element_latency_subtracts_and_saturates() {
    assert_eq!(compute_element_latency(100, 30), 70);
    assert_eq!(compute_element_latency(30, 50), 0);
}

#[test]
fn basic_link_reports_span_to_all_three_series() {
    let (g, a_src, b_sink) = two_nodes();
    let mut e = PromLatencyTracerImp::new();
    let mut adj = SpanAdjuster::new();
    e.on_link_established(&g, a_src, b_sink, true);
    e.on_enter(a_src, 1_000_000, &mut adj);
    let sample = e.on_leave(a_src, 1_100_000, &mut adj);
    assert_eq!(sample.map(|s| s.0), Some(100_000));
    assert_eq!(readings(&e, a_src), (100_000, 100_000, 1));
    assert_eq!(entry(&e, a_src).pending_timestamp, 0);
    assert_eq!(adj.span_latency, 100_000);
}

#[test]
fn link_labels_are_node_and_qualified_endpoint_names() {
    let (g, a_src, b_sink) = two_nodes();
    let mut e = PromLatencyTracerImp::new();
    e.on_link_established(&g, a_src, b_sink, true);
    let h = entry(&e, a_src).handles;
    let l = e.series_labels(h.last_value);
    assert_eq!(l.element, "A");
    assert_eq!(l.src_pad, "A.src");
    assert_eq!(l.sink_pad, "B.sink");
    assert_eq!(entry(&e, a_src).peer, 0x20000);
    assert_eq!(e.series_count(), (1, 1, 1));
}

#[test]
fn enter_leave_pair_reports_exact_difference() {
    let (g, a_src, b_sink) = two_nodes();
    let mut e = PromLatencyTracerImp::new();
    let mut adj = SpanAdjuster { span_latency: 777 };
    e.on_link_established(&g, a_src, b_sink, true);
    e.on_enter(a_src, 5, &mut adj);
    assert_eq!(adj.span_latency, 0);
    e.on_leave(a_src, 47, &mut adj);
    assert_eq!(readings(&e, a_src), (42, 42, 1));
    e.on_enter(a_src, 100, &mut adj);
    e.on_leave(a_src, 110, &mut adj);
    assert_eq!(readings(&e, a_src), (10, 52, 2));
}

#[test]
fn element_latency_never_exceeds_raw_span() {
    let (g, a_src, b_sink) = two_nodes();
    let mut e = PromLatencyTracerImp::new();
    let mut adj = SpanAdjuster::new();
    e.on_link_established(&g, a_src, b_sink, true);
    e.on_enter(a_src, 1_000, &mut adj);
    adj.span_latency = 300;
    e.on_leave(a_src, 2_000, &mut adj);
    assert_eq!(readings(&e, a_src).0, 700);
    e.on_enter(a_src, 1_000, &mut adj);
    adj.span_latency = 5_000;
    e.on_leave(a_src, 2_000, &mut adj);
    assert_eq!(readings(&e, a_src).0, 0);
    assert_eq!(readings(&e, a_src).1, 700);
    assert_eq!(adj.span_latency, 1_000);
}

#[test]
fn leave_before_enter_time_saturates_to_zero() {
    let (g, a_src, b_sink) = two_nodes();
    let mut e = PromLatencyTracerImp::new();
    let mut adj = SpanAdjuster::new();
    e.on_link_established(&g, a_src, b_sink, true);
    e.on_enter(a_src, 500, &mut adj);
    e.on_leave(a_src, 100, &mut adj);
    assert_eq!(readings(&e, a_src), (0, 0, 1));
    assert_eq!(adj.span_latency, 0);
}

#[test]
fn chained_links_subtract_downstream_span() {
    // A -> B -> C; the span of A.src->B.sink encloses the span of B.src->C.sink.
    let mut g = Graph::new();
    let a = g.add_node("A".to_string(), false);
    let b = g.add_node("B".to_string(), false);
    let c = g.add_node("C".to_string(), false);
    let a_src = pad(&mut g, 0x10000, "src", PadDirection::Src, a);
    let b_sink = pad(&mut g, 0x20000, "sink", PadDirection::Sink, b);
    let b_src = pad(&mut g, 0x30000, "src", PadDirection::Src, b);
    let c_sink = pad(&mut g, 0x40000, "sink", PadDirection::Sink, c);
    g.link(a_src, b_sink);
    g.link(b_src, c_sink);
    let mut e = PromLatencyTracerImp::new();
    let mut adj = SpanAdjuster::new();
    e.on_link_established(&g, a_src, b_sink, true);
    e.on_link_established(&g, b_src, c_sink, true);

    let t1 = 1_000;
    e.on_enter(a_src, t1, &mut adj);
    e.on_enter(b_src, 1_200, &mut adj);
    e.on_leave(b_src, 1_500, &mut adj);
    let d = 300;
    assert_eq!(readings(&e, b_src), (d, d, 1));
    let t3 = 1_600;
    e.on_leave(a_src, t3, &mut adj);
    assert_eq!(readings(&e, a_src), ((t3 - t1) - d, (t3 - t1) - d, 1));
    assert_eq!(adj.span_latency, t3 - t1);
}

#[test]
fn chained_links_clamp_when_downstream_span_is_longer() {
    let mut g = Graph::new();
    let a = g.add_node("A".to_string(), false);
    let b = g.add_node("B".to_string(), false);
    let c = g.add_node("C".to_string(), false);
    let a_src = pad(&mut g, 0x10000, "src", PadDirection::Src, a);
    let b_sink = pad(&mut g, 0x20000, "sink", PadDirection::Sink, b);
    let b_src = pad(&mut g, 0x30000, "src", PadDirection::Src, b);
    let c_sink = pad(&mut g, 0x40000, "sink", PadDirection::Sink, c);
    g.link(a_src, b_sink);
    g.link(b_src, c_sink);
    let mut e = PromLatencyTracerImp::new();
    let mut adj = SpanAdjuster::new();
    e.on_link_established(&g, a_src, b_sink, true);
    e.on_link_established(&g, b_src, c_sink, true);
    e.on_enter(a_src, 100, &mut adj);
    e.on_enter(b_src, 50, &mut adj);
    e.on_leave(b_src, 300, &mut adj);
    e.on_leave(a_src, 200, &mut adj);
    assert_eq!(readings(&e, b_src).0, 250);
    assert_eq!(readings(&e, a_src), (0, 0, 1));
}

#[test]
fn alias_sink_resolves_to_concrete_endpoint() {
    // Container X exposes alias sink X.sink forwarding to P.sink; Q.src links to X.sink.
    let mut g = Graph::new();
    let q = g.add_node("Q".to_string(), false);
    let x = g.add_node("X".to_string(), true);
    let p = g.add_node("P".to_string(), false);
    let q_src = pad(&mut g, 0x10000, "src", PadDirection::Src, q);
    let p_sink = pad(&mut g, 0x20000, "sink", PadDirection::Sink, p);
    let x_sink = g.add_pad(
        0x30000,
        "sink".to_string(),
        PadDirection::Sink,
        PadKind::Alias(Some(p_sink)),
        Owner::Node(x),
    );
    let x_proxy = g.add_pad(
        0x40000,
        "proxypad0".to_string(),
        PadDirection::Src,
        PadKind::Proxy,
        Owner::Pad(x_sink),
    );
    g.link(q_src, x_sink);
    g.link(x_proxy, p_sink);

    assert_eq!(g.resolve(x_sink), Some(ResolvedEndpoint { pad: p_sink, node: p }));
    assert_eq!(g.resolve(x_proxy), Some(ResolvedEndpoint { pad: q_src, node: q }));

    let mut e = PromLatencyTracerImp::new();
    let mut adj = SpanAdjuster::new();
    e.on_link_established(&g, q_src, x_sink, true);
    let h = entry(&e, q_src).handles;
    let l = e.series_labels(h.last_value);
    assert_eq!(l.element, "Q");
    assert_eq!(l.src_pad, "Q.src");
    assert_eq!(l.sink_pad, "P.sink");
    assert_eq!(entry(&e, q_src).peer, 0x30000);

    // The internal proxy is never measured as a source.
    e.on_link_established(&g, x_proxy, p_sink, true);
    assert!(e.entry(x_proxy).is_none());

    e.on_enter(q_src, 10, &mut adj);
    e.on_leave(q_src, 35, &mut adj);
    assert_eq!(readings(&e, q_src), (25, 25, 1));
}

#[test]
fn alias_chain_of_three_resolves() {
    let mut g = Graph::new();
    let outer = g.add_node("outer".to_string(), true);
    let inner = g.add_node("inner".to_string(), true);
    let p = g.add_node("P".to_string(), false);
    let p_sink = pad(&mut g, 0x10000, "sink", PadDirection::Sink, p);
    let inner_sink = g.add_pad(
        0x20000,
        "sink".to_string(),
        PadDirection::Sink,
        PadKind::Alias(Some(p_sink)),
        Owner::Node(inner),
    );
    let outer_sink = g.add_pad(
        0x30000,
        "sink".to_string(),
        PadDirection::Sink,
        PadKind::Alias(Some(inner_sink)),
        Owner::Node(outer),
    );
    assert_eq!(g.resolve(outer_sink), Some(ResolvedEndpoint { pad: p_sink, node: p }));
}

#[test]
fn cyclic_alias_chain_fails_to_resolve() {
    let mut g = Graph::new();
    let x = g.add_node("X".to_string(), true);
    let a1 = g.add_pad(1, "a".to_string(), PadDirection::Sink, PadKind::Alias(None), Owner::Node(x));
    let a2 = g.add_pad(2, "b".to_string(), PadDirection::Sink, PadKind::Alias(Some(a1)), Owner::Node(x));
    g.set_target(a1, Some(a2));
    assert_eq!(g.resolve(a1), None);
    assert_eq!(g.resolve(a2), None);
}

#[test]
fn unresolvable_endpoints_fail() {
    let mut g = Graph::new();
    let x = g.add_node("X".to_string(), true);
    let untargeted = g.add_pad(1, "sink".to_string(), PadDirection::Sink, PadKind::Alias(None), Owner::Node(x));
    let orphan = g.add_pad(2, "src".to_string(), PadDirection::Src, PadKind::Concrete, Owner::Unowned);
    let stray_proxy = g.add_pad(3, "proxy".to_string(), PadDirection::Src, PadKind::Proxy, Owner::Pad(untargeted));
    assert_eq!(g.resolve(untargeted), None);
    assert_eq!(g.resolve(orphan), None);
    assert_eq!(g.resolve(stray_proxy), None);
    assert_eq!(g.resolve(99), None);
}

#[test]
fn resolving_twice_gives_the_same_endpoint() {
    let (g, a_src, b_sink) = two_nodes();
    assert_eq!(g.resolve(a_src), g.resolve(a_src));
    assert_eq!(g.resolve(b_sink), Some(ResolvedEndpoint { pad: b_sink, node: 1 }));
    assert_eq!(g.resolve(b_sink), g.resolve(b_sink));
}

#[test]
fn container_owned_links_are_skipped() {
    let mut g = Graph::new();
    let a = g.add_node("A".to_string(), false);
    let bin = g.add_node("bin".to_string(), true);
    let a_src = pad(&mut g, 0x10000, "src", PadDirection::Src, a);
    let bin_sink = pad(&mut g, 0x20000, "sink", PadDirection::Sink, bin);
    g.link(a_src, bin_sink);
    let mut e = PromLatencyTracerImp::new();
    e.on_link_established(&g, a_src, bin_sink, true);
    assert!(e.entry(a_src).is_none());
    assert_eq!(e.series_count(), (0, 0, 0));
}

#[test]
fn failed_link_and_invalid_endpoints_are_skipped() {
    let (g, a_src, b_sink) = two_nodes();
    let mut e = PromLatencyTracerImp::new();
    e.on_link_established(&g, a_src, b_sink, false);
    assert!(e.entry(a_src).is_none());
    e.on_link_established(&g, a_src, 42, true);
    assert!(e.entry(a_src).is_none());
    e.on_link_established(&g, 42, b_sink, true);
    assert!(e.entry(42).is_none());
}

#[test]
fn leave_without_enter_is_ignored() {
    let (g, a_src, b_sink) = two_nodes();
    let mut e = PromLatencyTracerImp::new();
    let mut adj = SpanAdjuster { span_latency: 9 };
    assert_eq!(e.on_leave(a_src, 100, &mut adj), None);
    e.on_link_established(&g, a_src, b_sink, true);
    assert_eq!(e.on_leave(a_src, 100, &mut adj), None);
    assert_eq!(readings(&e, a_src), (0, 0, 0));
    assert_eq!(adj.span_latency, 9);
    e.on_enter(b_sink, 5, &mut adj);
    assert_eq!(adj.span_latency, 9);
}

#[test]
fn teardown_twice_invalidates_once() {
    let (g, a_src, b_sink) = two_nodes();
    let mut e = PromLatencyTracerImp::new();
    e.on_link_established(&g, a_src, b_sink, true);
    // A second entry, on the sink endpoint, must survive both teardowns.
    e.on_link_established(&g, b_sink, a_src, true);
    let kept = e.entry(b_sink);
    assert!(kept.is_some());

    e.on_link_torn_down(a_src, 0x20000, true);
    assert!(e.entry(a_src).is_none());
    e.on_link_torn_down(a_src, 0x20000, true);
    assert!(e.entry(a_src).is_none());
    assert_eq!(e.entry(b_sink), kept);
    assert_eq!(e.series_count().0, 2);
}

#[test]
fn spurious_teardown_keeps_entry() {
    let (g, a_src, b_sink) = two_nodes();
    let mut e = PromLatencyTracerImp::new();
    e.on_link_established(&g, a_src, b_sink, true);
    e.on_link_torn_down(a_src, 0x21, true);
    assert!(e.entry(a_src).is_some());
    e.on_link_torn_down(a_src, PAD_HANDLE_SENTINEL, true);
    assert!(e.entry(a_src).is_some());
    e.on_link_torn_down(a_src, 0x99999, true);
    assert!(e.entry(a_src).is_some());
    e.on_link_torn_down(a_src, 0x20000, false);
    assert!(e.entry(a_src).is_some());
}

#[test]
fn teardown_matches_sink_handle_at_sentinel_boundary() {
    let mut g = Graph::new();
    let a = g.add_node("A".to_string(), false);
    let b = g.add_node("B".to_string(), false);
    let a_src = pad(&mut g, 7, "src", PadDirection::Src, a);
    let low_sink = pad(&mut g, PAD_HANDLE_SENTINEL, "sink", PadDirection::Sink, b);
    let high_sink = pad(&mut g, PAD_HANDLE_SENTINEL + 1, "sink2", PadDirection::Sink, b);
    let mut e = PromLatencyTracerImp::new();
    e.on_link_established(&g, a_src, low_sink, true);
    e.on_link_torn_down(a_src, PAD_HANDLE_SENTINEL, true);
    assert!(e.entry(a_src).is_some());
    e.on_link_established(&g, a_src, high_sink, true);
    e.on_link_torn_down(a_src, PAD_HANDLE_SENTINEL + 1, true);
    assert!(e.entry(a_src).is_none());
}

#[test]
fn relinking_reuses_the_same_series() {
    let (mut g, a_src, b_sink) = two_nodes();
    let mut e = PromLatencyTracerImp::new();
    let mut adj = SpanAdjuster::new();
    e.on_link_established(&g, a_src, b_sink, true);
    let first = entry(&e, a_src).handles;
    let mut last_count = 0;
    for i in 0..5u64 {
        e.on_enter(a_src, 1_000 + i, &mut adj);
        e.on_leave(a_src, 2_000 + i, &mut adj);
        let count = readings(&e, a_src).2;
        assert!(count > last_count);
        last_count = count;
        g.unlink(a_src, b_sink);
        e.on_link_torn_down(a_src, 0x20000, true);
        assert!(e.entry(a_src).is_none());
        g.link(a_src, b_sink);
        e.on_link_established(&g, a_src, b_sink, true);
        assert_eq!(entry(&e, a_src).handles, first);
        assert_eq!(e.series_count(), (1, 1, 1));
    }
    assert_eq!(readings(&e, a_src), (1_000, 5_000, 5));
}

#[test]
fn sum_counter_saturates() {
    let (g, a_src, b_sink) = two_nodes();
    let mut e = PromLatencyTracerImp::new();
    let mut adj = SpanAdjuster::new();
    e.on_link_established(&g, a_src, b_sink, true);
    e.on_enter(a_src, 1, &mut adj);
    e.on_leave(a_src, u64::MAX, &mut adj);
    e.on_enter(a_src, 1, &mut adj);
    e.on_leave(a_src, u64::MAX, &mut adj);
    assert_eq!(readings(&e, a_src), (u64::MAX - 1, u64::MAX, 2));
}

#[test]
fn links_with_same_labels_share_series() {
    let mut g = Graph::new();
    let a = g.add_node("A".to_string(), false);
    let b = g.add_node("B".to_string(), false);
    let a_src = pad(&mut g, 0x10000, "src", PadDirection::Src, a);
    let b_sink = pad(&mut g, 0x20000, "sink", PadDirection::Sink, b);
    let a_src2 = pad(&mut g, 0x30000, "src", PadDirection::Src, a);
    let c = g.add_node("C".to_string(), false);
    let c_sink = pad(&mut g, 0x40000, "sink", PadDirection::Sink, c);
    let mut e = PromLatencyTracerImp::new();
    e.on_link_established(&g, a_src, b_sink, true);
    e.on_link_established(&g, a_src2, b_sink, true);
    assert_eq!(entry(&e, a_src).handles, entry(&e, a_src2).handles);
    e.on_link_established(&g, a_src2, c_sink, true);
    assert_eq!(entry(&e, a_src2).handles.last_value, 1);
    assert_eq!(e.series_count(), (2, 2, 2));
}

#[test]
fn qualified_name_of_unowned_endpoint_is_bare() {
    let mut g = Graph::new();
    let a = g.add_node("A".to_string(), false);
    let p = g.add_pad(1, "lonely".to_string(), PadDirection::Src, PadKind::Concrete, Owner::Unowned);
    let q = pad(&mut g, 2, "src", PadDirection::Src, a);
    assert_eq!(g.qualified_name(p), "lonely");
    assert_eq!(g.qualified_name(q), "A.src");
}
