use vstd::prelude::*;

verus! {

/// The label triple of one series, as plain character sequences:
/// (node, source endpoint qualified name, sink endpoint qualified name).
pub type LabelKey = (Seq<char>, Seq<char>, Seq<char>);

/// The label set of one link's series.
pub struct Labels {
    pub element: String,
    pub src_pad: String,
    pub sink_pad: String,
}

impl View for Labels {
    type V = LabelKey;

    open spec fn view(&self) -> LabelKey {
        (self.element@, self.src_pad@, self.sink_pad@)
    }
}

impl Labels {
    pub fn same_as(&self, other: &Labels) -> (r: bool)
        ensures
            r == (self@ == other@),
    {
        self.element == other.element && self.src_pad == other.src_pad && self.sink_pad
            == other.sink_pad
    }
}

/// Addition that stops at `u64::MAX`.
pub open spec fn sat_add(a: u64, b: u64) -> u64 {
    if a + b <= u64::MAX {
        (a + b) as u64
    } else {
        u64::MAX
    }
}

/// True when no label triple occurs twice in `keys`.
pub open spec fn keys_unique(keys: Seq<LabelKey>) -> bool {
    forall|i: int, j: int| 0 <= i < j < keys.len() ==> keys[i] != keys[j]
}

/// Position of `l` in `keys`, or -1 when absent.
pub open spec fn key_index(keys: Seq<LabelKey>, l: LabelKey) -> int {
    if exists|i: int| 0 <= i < keys.len() && keys[i] == l {
        choose|i: int| 0 <= i < keys.len() && keys[i] == l
    } else {
        -1
    }
}

/// The abstract state of one metric family: its series' labels and values,
/// indexed by handle.
pub struct FamilyView {
    pub keys: Seq<LabelKey>,
    pub values: Seq<u64>,
}

/// The family after asking for the handle of `l`: unchanged when `l` already
/// has a series, else with a new series of value 0 at the end.
pub open spec fn family_with(f: FamilyView, l: LabelKey) -> FamilyView {
    if key_index(f.keys, l) >= 0 {
        f
    } else {
        FamilyView { keys: f.keys.push(l), values: f.values.push(0) }
    }
}

/// The handle that asking for `l` yields.
pub open spec fn handle_in(f: FamilyView, l: LabelKey) -> int {
    if key_index(f.keys, l) >= 0 {
        key_index(f.keys, l)
    } else {
        f.keys.len() as int
    }
}

pub open spec fn family_wf(f: FamilyView) -> bool {
    &&& f.keys.len() == f.values.len()
    &&& keys_unique(f.keys)
}

/// One named metric family: a table of series keyed by label triple, each
/// holding one `u64` value. A handle is the index of a series; a series, once
/// created, keeps its index for the family's lifetime.
pub struct MetricFamily {
    labels: Vec<Labels>,
    values: Vec<u64>,
}

impl MetricFamily {
    pub closed spec fn view(&self) -> FamilyView {
        FamilyView { keys: self.labels@.map_values(|l: Labels| l@), values: self.values@ }
    }

    pub open spec fn wf(&self) -> bool {
        family_wf(self.view())
    }

    pub fn new() -> (r: MetricFamily)
        ensures
            r.wf(),
            r.view().keys.len() == 0,
    {
        let r = MetricFamily { labels: Vec::new(), values: Vec::new() };
        assert(r.view().keys =~= Seq::<LabelKey>::empty());
        r
    }

    pub fn len(&self) -> (r: usize)
        requires
            self.wf(),
        ensures
            r == self.view().keys.len(),
    {
        self.values.len()
    }

    /// Value of the series behind handle `h`.
    pub fn value(&self, h: usize) -> (r: u64)
        requires
            self.wf(),
            h < self.view().values.len(),
        ensures
            r == self.view().values[h as int],
    {
        self.values[h]
    }

    /// A copy of the labels of the series behind handle `h`.
    pub fn labels_of(&self, h: usize) -> (r: Labels)
        requires
            self.wf(),
            h < self.view().keys.len(),
        ensures
            r@ == self.view().keys[h as int],
    {
        let l = &self.labels[h];
        Labels { element: l.element.clone(), src_pad: l.src_pad.clone(), sink_pad: l.sink_pad.clone() }
    }

    /// Handle of the series labelled `l`, created with value 0 when none
    /// exists yet. The same labels always give the same handle.
    pub fn handle_for(&mut self, l: Labels) -> (h: usize)
        requires
            old(self).wf(),
        ensures
            final(self).wf(),
            final(self).view() == family_with(old(self).view(), l@),
            h == handle_in(old(self).view(), l@),
            h < final(self).view().keys.len(),
    {
        let n = self.labels.len();
        let ghost keys = self.view().keys;
        let mut i: usize = 0;
        while i < n
            invariant
                n == self.labels@.len(),
                self.wf(),
                keys == self.view().keys,
                i <= n,
                forall|j: int| 0 <= j < i ==> keys[j] != l@,
            decreases n - i,
        {
            if self.labels[i].same_as(&l) {
                proof {
                    let k = key_index(keys, l@);
                    assert(keys[i as int] == l@);
                    assert(0 <= k < keys.len() && keys[k] == l@);
                    assert(k == i);
                }
                return i;
            }
            i = i + 1;
        }
        assert(key_index(keys, l@) == -1);
        self.labels.push(l);
        self.values.push(0);
        proof {
            let nk = self.view().keys;
            assert(nk =~= keys.push(l@));
            assert forall|a: int, b: int| 0 <= a < b < nk.len() implies nk[a] != nk[b] by {
                if b == keys.len() {
                    assert(nk[a] == keys[a]);
                }
            }
        }
        n
    }

    /// Gauge update: the series behind `h` now reads `v`.
    pub fn set(&mut self, h: usize, v: u64)
        requires
            old(self).wf(),
            h < old(self).view().values.len(),
        ensures
            final(self).wf(),
            final(self).view().keys == old(self).view().keys,
            final(self).view().values == old(self).view().values.update(h as int, v),
    {
        self.values.set(h, v);
    }

    /// Counter update: the series behind `h` grows by `v`, stopping at `u64::MAX`.
    pub fn add(&mut self, h: usize, v: u64)
        requires
            old(self).wf(),
            h < old(self).view().values.len(),
        ensures
            final(self).wf(),
            final(self).view().keys == old(self).view().keys,
            final(self).view().values == old(self).view().values.update(
                h as int,
                sat_add(old(self).view().values[h as int], v),
            ),
    {
        let cur = self.values[h];
        self.values.set(h, cur.saturating_add(v));
    }
}

} // verus!
