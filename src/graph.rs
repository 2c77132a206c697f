use vstd::prelude::*;
use vstd::string::StringExecFns;

verus! {

/// Direction of an endpoint.
#[derive(Clone, Copy, Debug, PartialEq, Eq, Structural)]
pub enum PadDirection {
    Src,
    Sink,
}

/// What kind of endpoint a pad is.
#[derive(Clone, Copy, Debug, PartialEq, Eq, Structural)]
pub enum PadKind {
    /// An endpoint that belongs to a processing node.
    Concrete,
    /// An alias endpoint of a container, forwarding to its target, if any.
    Alias(Option<usize>),
    /// A pass-through endpoint owned by an alias endpoint.
    Proxy,
}

/// The object that owns a pad.
#[derive(Clone, Copy, Debug, PartialEq, Eq, Structural)]
pub enum Owner {
    Unowned,
    /// A node, by index into the graph's nodes.
    Node(usize),
    /// An endpoint, by index into the graph's pads (the owner of a proxy).
    Pad(usize),
}

/// A processing node of the observed graph.
pub struct NodeInfo {
    pub name: String,
    /// A container groups child nodes and is never measured.
    pub container: bool,
}

/// An endpoint of the observed graph.
pub struct PadInfo {
    /// The host's identity value for this endpoint.
    pub handle: u64,
    pub name: String,
    pub direction: PadDirection,
    pub kind: PadKind,
    pub owner: Owner,
    /// The endpoint this one is linked to, if any.
    pub peer: Option<usize>,
}

/// A snapshot of the host's dataflow graph: nodes and endpoints in arenas,
/// referring to each other by index. Indices out of range stand for
/// invalid objects.
pub struct Graph {
    pub nodes: Vec<NodeInfo>,
    pub pads: Vec<PadInfo>,
}

/// A concrete endpoint together with the node that owns it.
#[derive(Clone, Copy, Debug, PartialEq, Eq, Structural)]
pub struct ResolvedEndpoint {
    pub pad: usize,
    pub node: usize,
}

/// One step of the resolution walk.
pub enum Step {
    Fail,
    Done(ResolvedEndpoint),
    Next(usize),
}

pub open spec fn valid_pad(g: &Graph, p: int) -> bool {
    0 <= p < g.pads@.len()
}

pub open spec fn valid_node(g: &Graph, n: int) -> bool {
    0 <= n < g.nodes@.len()
}

/// Where the walk goes from pad `p`: an alias goes to its target, a proxy to
/// the peer of its owning alias, a concrete pad owned by a node ends the walk.
pub open spec fn step_spec(g: &Graph, p: int) -> Step {
    if !valid_pad(g, p) {
        Step::Fail
    } else {
        let pad = g.pads@[p];
        match pad.kind {
            PadKind::Alias(t) => match t {
                Some(q) => Step::Next(q),
                None => Step::Fail,
            },
            PadKind::Proxy => match pad.owner {
                Owner::Pad(a) => if valid_pad(g, a as int) {
                    match g.pads@[a as int].peer {
                        Some(q) => Step::Next(q),
                        None => Step::Fail,
                    }
                } else {
                    Step::Fail
                },
                _ => Step::Fail,
            },
            PadKind::Concrete => match pad.owner {
                Owner::Node(n) => if valid_node(g, n as int) {
                    Step::Done(ResolvedEndpoint { pad: p as usize, node: n })
                } else {
                    Step::Fail
                },
                _ => Step::Fail,
            },
        }
    }
}

/// The walk from `p` with at most `fuel` steps.
pub open spec fn resolve_from(g: &Graph, p: int, fuel: nat) -> Option<ResolvedEndpoint>
    decreases fuel,
{
    if fuel == 0 {
        None
    } else {
        match step_spec(g, p) {
            Step::Fail => None,
            Step::Done(r) => Some(r),
            Step::Next(q) => resolve_from(g, q as int, (fuel - 1) as nat),
        }
    }
}

/// True when pad `p` has an owner of any kind.
pub open spec fn has_owner(g: &Graph, p: int) -> bool {
    valid_pad(g, p) && !(g.pads@[p].owner is Unowned)
}

/// Identity resolution: the concrete endpoint and node behind pad `p`.
/// A walk that has not ended after as many steps as there are pads goes on
/// to a pad it has visited already, and since each step depends on the pad alone it
/// would cycle for ever: such a walk fails.
pub open spec fn resolve_spec(g: &Graph, p: int) -> Option<ResolvedEndpoint> {
    if !has_owner(g, p) {
        None
    } else {
        resolve_from(g, p, g.pads@.len() as nat)
    }
}

/// The name under which an endpoint appears in labels: `node.pad` when a
/// node owns it, else the pad's own name.
pub open spec fn qualified_spec(g: &Graph, p: int) -> Seq<char> {
    let pad = g.pads@[p];
    match pad.owner {
        Owner::Node(n) => if valid_node(g, n as int) {
            g.nodes@[n as int].name@ + seq!['.'] + pad.name@
        } else {
            pad.name@
        },
        _ => pad.name@,
    }
}

impl Graph {
    pub fn new() -> (r: Graph)
        ensures
            r.nodes@.len() == 0,
            r.pads@.len() == 0,
    {
        Graph { nodes: Vec::new(), pads: Vec::new() }
    }

    /// Adds a node and returns its index.
    pub fn add_node(&mut self, name: String, container: bool) -> (r: usize)
        requires
            old(self).nodes@.len() < usize::MAX,
        ensures
            r == old(self).nodes@.len(),
            final(self).nodes@.len() == old(self).nodes@.len() + 1,
            final(self).nodes@[r as int].name@ == name@,
            final(self).nodes@[r as int].container == container,
            forall|i: int| 0 <= i < r ==> final(self).nodes@[i] == old(self).nodes@[i],
            final(self).pads@ == old(self).pads@,
    {
        let r = self.nodes.len();
        self.nodes.push(NodeInfo { name, container });
        r
    }

    /// Adds an endpoint and returns its index.
    pub fn add_pad(
        &mut self,
        handle: u64,
        name: String,
        direction: PadDirection,
        kind: PadKind,
        owner: Owner,
    ) -> (r: usize)
        requires
            old(self).pads@.len() < usize::MAX,
        ensures
            r == old(self).pads@.len(),
            final(self).pads@.len() == old(self).pads@.len() + 1,
            final(self).pads@[r as int].handle == handle,
            final(self).pads@[r as int].name@ == name@,
            final(self).pads@[r as int].direction == direction,
            final(self).pads@[r as int].kind == kind,
            final(self).pads@[r as int].owner == owner,
            final(self).pads@[r as int].peer is None,
            forall|i: int| 0 <= i < r ==> final(self).pads@[i] == old(self).pads@[i],
            final(self).nodes@ == old(self).nodes@,
    {
        let r = self.pads.len();
        self.pads.push(PadInfo { handle, name, direction, kind, owner, peer: None });
        r
    }

    /// Records `a` and `b` as each other's peer.
    pub fn link(&mut self, a: usize, b: usize)
        requires
            a < old(self).pads@.len(),
            b < old(self).pads@.len(),
        ensures
            final(self).nodes@ == old(self).nodes@,
            final(self).pads@.len() == old(self).pads@.len(),
            final(self).pads@[a as int].peer == Some(b),
            final(self).pads@[b as int].peer == Some(a),
            forall|i: int|
                0 <= i < old(self).pads@.len() && i != a && i != b ==> final(self).pads@[i]
                    == old(self).pads@[i],
            forall|i: int|
                0 <= i < old(self).pads@.len() ==> {
                    &&& final(self).pads@[i].handle == old(self).pads@[i].handle
                    &&& final(self).pads@[i].name == old(self).pads@[i].name
                    &&& final(self).pads@[i].kind == old(self).pads@[i].kind
                    &&& final(self).pads@[i].owner == old(self).pads@[i].owner
                    &&& final(self).pads@[i].direction == old(self).pads@[i].direction
                },
    {
        self.pads[a].peer = Some(b);
        self.pads[b].peer = Some(a);
    }

    /// Clears the peers of `a` and `b`.
    pub fn unlink(&mut self, a: usize, b: usize)
        requires
            a < old(self).pads@.len(),
            b < old(self).pads@.len(),
        ensures
            final(self).nodes@ == old(self).nodes@,
            final(self).pads@.len() == old(self).pads@.len(),
            final(self).pads@[a as int].peer is None,
            final(self).pads@[b as int].peer is None,
            forall|i: int|
                0 <= i < old(self).pads@.len() && i != a && i != b ==> final(self).pads@[i]
                    == old(self).pads@[i],
            forall|i: int|
                0 <= i < old(self).pads@.len() ==> {
                    &&& final(self).pads@[i].handle == old(self).pads@[i].handle
                    &&& final(self).pads@[i].name == old(self).pads@[i].name
                    &&& final(self).pads@[i].kind == old(self).pads@[i].kind
                    &&& final(self).pads@[i].owner == old(self).pads@[i].owner
                    &&& final(self).pads@[i].direction == old(self).pads@[i].direction
                },
    {
        self.pads[a].peer = None;
        self.pads[b].peer = None;
    }

    /// Sets the peer of `a` alone, as the host reports it.
    pub fn set_peer(&mut self, a: usize, peer: Option<usize>)
        requires
            a < old(self).pads@.len(),
        ensures
            final(self).nodes@ == old(self).nodes@,
            final(self).pads@.len() == old(self).pads@.len(),
            final(self).pads@[a as int].peer == peer,
            final(self).pads@[a as int].handle == old(self).pads@[a as int].handle,
            final(self).pads@[a as int].name == old(self).pads@[a as int].name,
            final(self).pads@[a as int].kind == old(self).pads@[a as int].kind,
            final(self).pads@[a as int].owner == old(self).pads@[a as int].owner,
            final(self).pads@[a as int].direction == old(self).pads@[a as int].direction,
            forall|i: int|
                0 <= i < old(self).pads@.len() && i != a ==> final(self).pads@[i]
                    == old(self).pads@[i],
    {
        self.pads[a].peer = peer;
    }

    /// Sets the target of alias endpoint `a`.
    pub fn set_target(&mut self, a: usize, target: Option<usize>)
        requires
            a < old(self).pads@.len(),
        ensures
            final(self).nodes@ == old(self).nodes@,
            final(self).pads@.len() == old(self).pads@.len(),
            final(self).pads@[a as int].kind == PadKind::Alias(target),
            final(self).pads@[a as int].handle == old(self).pads@[a as int].handle,
            final(self).pads@[a as int].name == old(self).pads@[a as int].name,
            final(self).pads@[a as int].owner == old(self).pads@[a as int].owner,
            final(self).pads@[a as int].peer == old(self).pads@[a as int].peer,
            final(self).pads@[a as int].direction == old(self).pads@[a as int].direction,
            forall|i: int|
                0 <= i < old(self).pads@.len() && i != a ==> final(self).pads@[i]
                    == old(self).pads@[i],
    {
        self.pads[a].kind = PadKind::Alias(target);
    }

    /// One step of the resolution walk from pad `p`.
    fn step(&self, p: usize) -> (r: Step)
        ensures
            r == step_spec(self, p as int),
    {
        if p >= self.pads.len() {
            return Step::Fail;
        }
        let pad = &self.pads[p];
        match pad.kind {
            PadKind::Alias(t) => match t {
                Some(q) => Step::Next(q),
                None => Step::Fail,
            },
            PadKind::Proxy => match pad.owner {
                Owner::Pad(a) => {
                    if a < self.pads.len() {
                        match self.pads[a].peer {
                            Some(q) => Step::Next(q),
                            None => Step::Fail,
                        }
                    } else {
                        Step::Fail
                    }
                },
                _ => Step::Fail,
            },
            PadKind::Concrete => match pad.owner {
                Owner::Node(n) => {
                    if n < self.nodes.len() {
                        Step::Done(ResolvedEndpoint { pad: p, node: n })
                    } else {
                        Step::Fail
                    }
                },
                _ => Step::Fail,
            },
        }
    }

    /// Resolves pad `p` through alias and proxy endpoints to the concrete
    /// endpoint and its owning node. Reads the graph only.
    pub fn resolve(&self, p: usize) -> (r: Option<ResolvedEndpoint>)
        ensures
            r == resolve_spec(self, p as int),
    {
        if p >= self.pads.len() {
            return None;
        }
        match self.pads[p].owner {
            Owner::Unowned => {
                return None;
            },
            _ => {},
        }
        let total: usize = self.pads.len();
        let mut cur: usize = p;
        let mut steps: usize = 0;
        while steps < total
            invariant
                total == self.pads@.len(),
                steps <= total,
                resolve_spec(self, p as int) == resolve_from(
                    self,
                    cur as int,
                    (total - steps) as nat,
                ),
            decreases total - steps,
        {
            match self.step(cur) {
                Step::Fail => {
                    return None;
                },
                Step::Done(r) => {
                    return Some(r);
                },
                Step::Next(q) => {
                    cur = q;
                },
            }
            steps = steps + 1;
        }
        None
    }

    /// The label name of pad `p`: `node.pad` when a node owns it, else the
    /// pad's own name.
    pub fn qualified_name(&self, p: usize) -> (r: String)
        requires
            p < self.pads@.len(),
        ensures
            r@ == qualified_spec(self, p as int),
    {
        let pad = &self.pads[p];
        match pad.owner {
            Owner::Node(n) => {
                if n < self.nodes.len() {
                    let mut s = self.nodes[n].name.clone();
                    s.append(".");
                    s.append(pad.name.as_str());
                    proof {
                        reveal_strlit(".");
                    }
                    s
                } else {
                    pad.name.clone()
                }
            },
            _ => pad.name.clone(),
        }
    }
}

} // verus!
