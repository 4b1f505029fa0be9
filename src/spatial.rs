//! Which nodes lie under a point or overlap a region, topmost first.
use vstd::prelude::*;
use crate::geometry::{Offset, Region};
use crate::node::NodeId;

verus! {

/// Node regions in paint order: later entries are drawn on top.
pub struct SpatialMap {
    pub entries: Vec<(NodeId, Region)>,
}

/// Ids of the entries among the first `n` whose region holds `p`, topmost
/// (last) first.
pub open spec fn hits(es: Seq<(NodeId, Region)>, n: int, p: Offset) -> Seq<NodeId>
    decreases n,
{
    if n <= 0 || n > es.len() {
        Seq::empty()
    } else if es[n - 1].1.spec_contains(p.x as int, p.y as int) {
        seq![es[n - 1].0] + hits(es, n - 1, p)
    } else {
        hits(es, n - 1, p)
    }
}

/// Ids of the entries among the first `n` whose region overlaps `r`,
/// topmost first.
pub open spec fn overlapping(es: Seq<(NodeId, Region)>, n: int, r: Region) -> Seq<NodeId>
    decreases n,
{
    if n <= 0 || n > es.len() {
        Seq::empty()
    } else if es[n - 1].1.spec_overlaps(r) {
        seq![es[n - 1].0] + overlapping(es, n - 1, r)
    } else {
        overlapping(es, n - 1, r)
    }
}

impl SpatialMap {
    pub fn new() -> (r: SpatialMap)
        ensures
            r.entries@.len() == 0,
    {
        SpatialMap { entries: Vec::new() }
    }

    /// Replace the entries by `layouts`, in the order given.
    pub fn update_ordered(&mut self, layouts: &[(NodeId, Region)])
        ensures
            final(self).entries@ == layouts@,
    {
        let mut es: Vec<(NodeId, Region)> = Vec::new();
        let mut i: usize = 0;
        while i < layouts.len()
            invariant
                i <= layouts@.len(),
                es@ == layouts@.subrange(0, i as int),
            decreases layouts@.len() - i,
        {
            es.push(layouts[i]);
            proof {
                assert(es@ =~= layouts@.subrange(0, i + 1));
            }
            i = i + 1;
        }
        proof {
            assert(es@ =~= layouts@);
        }
        self.entries = es;
    }

    /// Replace the entries by `layouts` in any order (as a map hands them out).
    pub fn update(&mut self, layouts: &[(NodeId, Region)])
        ensures
            final(self).entries@ == layouts@,
    {
        self.update_ordered(layouts);
    }

    /// Every node whose region holds `point`, topmost first.
    pub fn hit_test(&self, point: Offset) -> (r: Vec<NodeId>)
        ensures
            r@ == hits(self.entries@, self.entries@.len() as int, point),
    {
        let mut out: Vec<NodeId> = Vec::new();
        let mut i = self.entries.len();
        while i > 0
            invariant
                i <= self.entries@.len(),
                out@ + hits(self.entries@, i as int, point) == hits(
                    self.entries@,
                    self.entries@.len() as int,
                    point,
                ),
            decreases i,
        {
            let (id, region) = self.entries[i - 1];
            if region.contains(point.x, point.y) {
                proof {
                    assert(out@.push(id) + hits(self.entries@, i - 1, point) =~= out@ + (seq![id]
                        + hits(self.entries@, i - 1, point)));
                }
                out.push(id);
            }
            i = i - 1;
        }
        proof {
            assert(out@ + hits(self.entries@, 0, point) =~= out@);
        }
        out
    }

    /// The topmost node whose region holds `point`.
    pub fn node_at(&self, point: Offset) -> (r: Option<NodeId>)
        ensures
            ({
                let h = hits(self.entries@, self.entries@.len() as int, point);
                if h.len() > 0 {
                    r == Some(h[0])
                } else {
                    r is None
                }
            }),
    {
        let mut i = self.entries.len();
        while i > 0
            invariant
                i <= self.entries@.len(),
                hits(self.entries@, i as int, point) == hits(
                    self.entries@,
                    self.entries@.len() as int,
                    point,
                ),
            decreases i,
        {
            let (id, region) = self.entries[i - 1];
            if region.contains(point.x, point.y) {
                return Some(id);
            }
            i = i - 1;
        }
        None
    }

    /// Every node whose region overlaps `region`, topmost first.
    pub fn nodes_in_region(&self, region: &Region) -> (r: Vec<NodeId>)
        ensures
            r@ == overlapping(self.entries@, self.entries@.len() as int, *region),
    {
        let mut out: Vec<NodeId> = Vec::new();
        let mut i = self.entries.len();
        while i > 0
            invariant
                i <= self.entries@.len(),
                out@ + overlapping(self.entries@, i as int, *region) == overlapping(
                    self.entries@,
                    self.entries@.len() as int,
                    *region,
                ),
            decreases i,
        {
            let (id, r) = self.entries[i - 1];
            if r.overlaps(*region) {
                proof {
                    assert(out@.push(id) + overlapping(self.entries@, i - 1, *region) =~= out@ + (
                    seq![id] + overlapping(self.entries@, i - 1, *region)));
                }
                out.push(id);
            }
            i = i - 1;
        }
        proof {
            assert(out@ + overlapping(self.entries@, 0, *region) =~= out@);
        }
        out
    }

    pub fn len(&self) -> (r: usize)
        ensures
            r == self.entries@.len(),
    {
        self.entries.len()
    }

    pub fn is_empty(&self) -> (r: bool)
        ensures
            r == (self.entries@.len() == 0),
    {
        self.entries.len() == 0
    }
}

impl Default for SpatialMap {
    fn default() -> (r: SpatialMap)
        ensures
            r.entries@.len() == 0,
    {
        SpatialMap::new()
    }
}

} // verus!
