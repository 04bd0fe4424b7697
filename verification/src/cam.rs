//! The camshaft wheel: a starting level and the angles at which it toggles.

use crate::error::CfgError;
use crate::level::Level;
use vstd::prelude::*;

verus! {

/// Samples in one engine cycle (720 degrees in tenths of a degree).
pub const CYCLE_LEN: usize = 7200;

/// Number of edge entries of a camshaft wheel.
pub const MAX_CAM_EDGES: usize = 20;

/// Value stored in the entries of a camshaft wheel that hold no edge.
pub const UNUSED_EDGE: i16 = -1;

/// Whether entry `i` of `edges` holds an edge: it and every entry before it is
/// an angle. The first negative entry ends the list.
pub open spec fn edge_is_used(edges: Seq<i16>, i: int) -> bool {
    &&& 0 <= i < edges.len()
    &&& forall|j: int| 0 <= j <= i ==> #[trigger] edges[j] >= 0
}

/// Whether the used entries of `edges` are angles of the cycle in strictly
/// ascending order.
pub open spec fn edges_ascending(edges: Seq<i16>) -> bool {
    &&& forall|i: int| edge_is_used(edges, i) ==> #[trigger] edges[i] < CYCLE_LEN
    &&& forall|i: int, j: int|
        0 <= i < j && edge_is_used(edges, j) ==> #[trigger] edges[i] < #[trigger] edges[j]
}

/// Why `edges` cannot be the edges of a camshaft wheel, if they cannot: there
/// are more than the wheel holds, or they are not strictly ascending angles of
/// the cycle.
pub open spec fn cam_edges_fault(edges: Seq<i16>) -> Option<CfgError> {
    if edge_is_used(edges, MAX_CAM_EDGES as int) {
        Some(CfgError::UnsupportedCamEdgeCount)
    } else if !edges_ascending(edges) {
        Some(CfgError::NonMonotonicCamEdges)
    } else {
        None
    }
}

/// The indices of the used entries of `edges` that lie below angle `a`.
pub open spec fn edges_below(edges: Seq<i16>, a: int) -> Set<int> {
    Set::new(|i: int| edge_is_used(edges, i) && edges[i] < a)
}

/// Camshaft wheel configuration
#[derive(Clone, Copy, Debug)]
pub struct Cam {
    /// Level when first crankshaft gap is met
    pub first_level: Level,
    /// Angle of each camshaft edge, starting from the first crankshaft gap, in
    /// tenths of a degree. Negative angle if not used.
    pub ev_angles: [i16; 20],
}

impl Cam {
    /// The used edges are strictly ascending angles of the cycle.
    pub open spec fn wf(self) -> bool {
        edges_ascending(self.ev_angles@)
    }

    /// Number of edges passed before the scan reaches angle `a`.
    pub open spec fn edges_before(self, a: int) -> nat {
        edges_below(self.ev_angles@, a).len()
    }

    /// Whether the used edges are strictly ascending angles of the cycle.
    pub fn is_valid(&self) -> (ok: bool)
        ensures
            ok == self.wf(),
    {
        let mut i: usize = 0;
        while i < MAX_CAM_EDGES && self.ev_angles[i] >= 0
            invariant
                i <= MAX_CAM_EDGES,
                forall|j: int| 0 <= j < i ==> 0 <= #[trigger] self.ev_angles@[j] < CYCLE_LEN,
                forall|j: int, k: int|
                    0 <= j < k < i ==> #[trigger] self.ev_angles@[j] < #[trigger] self.ev_angles@[k],
            decreases MAX_CAM_EDGES - i,
        {
            let angle = self.ev_angles[i];
            if angle >= CYCLE_LEN as i16 || (i > 0 && self.ev_angles[i - 1] >= angle) {
                proof {
                    assert(edge_is_used(self.ev_angles@, i as int));
                }
                return false;
            }
            i += 1;
        }
        proof {
            assert forall|j: int| edge_is_used(self.ev_angles@, j) implies j < i by {
                if j >= i {
                    assert(self.ev_angles@[i as int] >= 0);
                }
            }
        }
        true
    }

    /// Builds a camshaft wheel from its first level and its edge angles.
    ///
    /// The edges are the entries of `edges` up to its first negative one, or
    /// all of them. More than twenty edges are refused; so are edges that are
    /// not strictly ascending angles of the cycle. The entries of the wheel
    /// that hold no edge are filled with `UNUSED_EDGE`.
    pub fn new(first_level: Level, edges: &[i16]) -> (r: Result<Cam, CfgError>)
        ensures
            match r {
                Ok(cam) => {
                    &&& cam_edges_fault(edges@) is None
                    &&& cam.wf()
                    &&& cam.first_level == first_level
                    &&& forall|i: int|
                        0 <= i < MAX_CAM_EDGES ==> #[trigger] cam.ev_angles@[i] == (if edge_is_used(
                            edges@,
                            i,
                        ) {
                            edges@[i]
                        } else {
                            UNUSED_EDGE
                        })
                },
                Err(e) => cam_edges_fault(edges@) == Some(e),
            },
    {
        let mut ev_angles = [UNUSED_EDGE;20];
        let mut n: usize = 0;
        while n < edges.len() && edges[n] >= 0
            invariant
                n <= edges.len(),
                n <= MAX_CAM_EDGES,
                forall|j: int| 0 <= j < n ==> #[trigger] edges@[j] >= 0,
                forall|j: int| 0 <= j < n ==> #[trigger] ev_angles@[j] == edges@[j],
                forall|j: int| n <= j < MAX_CAM_EDGES ==> #[trigger] ev_angles@[j] == UNUSED_EDGE,
            decreases edges.len() - n,
        {
            if n >= MAX_CAM_EDGES {
                proof {
                    assert(edge_is_used(edges@, MAX_CAM_EDGES as int));
                }
                return Err(CfgError::UnsupportedCamEdgeCount);
            }
            ev_angles[n] = edges[n];
            n += 1;
        }
        let cam = Cam { first_level, ev_angles };
        proof {
            assert forall|i: int| edge_is_used(edges@, i) implies i < n by {
                if i >= n {
                    assert(edges@[n as int] >= 0);
                }
            }
            assert forall|i: int| edge_is_used(cam.ev_angles@, i) implies i < n by {
                if i >= n {
                    assert(cam.ev_angles@[n as int] >= 0);
                }
            }
            assert forall|i: int| 0 <= i < n implies edge_is_used(edges@, i) && edge_is_used(
                cam.ev_angles@,
                i,
            ) by {
                assert forall|j: int| 0 <= j <= i implies #[trigger] cam.ev_angles@[j] >= 0 by {
                    assert(edges@[j] >= 0);
                }
            }
            assert(!edge_is_used(edges@, MAX_CAM_EDGES as int));
            lemma_same_used_edges(edges@, cam.ev_angles@, n as int);
        }
        if cam.is_valid() {
            Ok(cam)
        } else {
            Err(CfgError::NonMonotonicCamEdges)
        }
    }

    /// Camshaft level of sample `a`: the first level, toggled once for each
    /// edge that lies before `a`. An edge at angle `e` is first seen in sample
    /// `e + 1`.
    pub open spec fn level_at(self, a: int) -> Level {
        self.first_level.toggled(self.edges_before(a) as int)
    }
}

/// Two lists with the same `n` used entries are ascending together.
proof fn lemma_same_used_edges(s: Seq<i16>, t: Seq<i16>, n: int)
    requires
        0 <= n <= s.len(),
        n <= t.len(),
        forall|i: int| 0 <= i < n ==> #[trigger] s[i] == t[i],
        forall|i: int| edge_is_used(s, i) <==> 0 <= i < n,
        forall|i: int| edge_is_used(t, i) <==> 0 <= i < n,
    ensures
        edges_ascending(s) == edges_ascending(t),
{
    if edges_ascending(s) {
        assert forall|i: int| edge_is_used(t, i) implies #[trigger] t[i] < CYCLE_LEN by {
            assert(edge_is_used(s, i));
            assert(s[i] == t[i]);
        }
        assert forall|i: int, j: int| 0 <= i < j && edge_is_used(t, j) implies #[trigger] t[i]
            < #[trigger] t[j] by {
            assert(edge_is_used(s, j));
            assert(s[i] == t[i] && s[j] == t[j]);
        }
    }
    if edges_ascending(t) {
        assert forall|i: int| edge_is_used(s, i) implies #[trigger] s[i] < CYCLE_LEN by {
            assert(edge_is_used(t, i));
            assert(s[i] == t[i]);
        }
        assert forall|i: int, j: int| 0 <= i < j && edge_is_used(s, j) implies #[trigger] s[i]
            < #[trigger] s[j] by {
            assert(edge_is_used(t, j));
            assert(s[i] == t[i] && s[j] == t[j]);
        }
    }
}

/// The state of a scan that has reached angle `a` with `n` edges passed:
/// entries `0..n` are used edges below `a`, and no later used edge is.
#[verifier::opaque]
pub open spec fn edges_split(edges: Seq<i16>, a: int, n: int) -> bool {
    &&& 0 <= n <= edges.len()
    &&& forall|i: int| 0 <= i < n ==> edge_is_used(edges, i) && #[trigger] edges[i] < a
    &&& forall|i: int| n <= i && edge_is_used(edges, i) ==> #[trigger] edges[i] >= a
}

/// A scan that has passed `n` edges has exactly `n` edges below its angle.
pub proof fn lemma_edges_below_count(edges: Seq<i16>, a: int, n: int)
    requires
        edges_split(edges, a, n),
    ensures
        edges_below(edges, a).finite(),
        edges_below(edges, a).len() == n,
{
    reveal(edges_split);
    vstd::set_lib::lemma_int_range(0, n);
    assert(edges_below(edges, a) =~= vstd::set_lib::set_int_range(0, n));
}

/// No edge lies before angle 0.
pub proof fn lemma_edges_split_start(edges: Seq<i16>)
    ensures
        edges_split(edges, 0, 0),
{
    reveal(edges_split);
    assert forall|i: int| 0 <= i && edge_is_used(edges, i) implies #[trigger] edges[i] >= 0 by {}
}

/// Passing angle `a` passes the next entry where it is an edge at `a`, and no
/// entry otherwise.
pub proof fn lemma_edges_split_next(edges: Seq<i16>, a: int, n: int)
    requires
        edges_ascending(edges),
        edges_split(edges, a, n),
        0 <= a,
    ensures
        n < edges.len() && edges[n] == a ==> edges_split(edges, a + 1, n + 1),
        !(n < edges.len() && edges[n] == a) ==> edges_split(edges, a + 1, n),
{
    reveal(edges_split);
    if n < edges.len() && edges[n] == a {
        assert forall|j: int| 0 <= j <= n implies #[trigger] edges[j] >= 0 by {
            if j < n {
                assert(edge_is_used(edges, j));
            }
        }
        assert(edge_is_used(edges, n));
        assert forall|i: int| n + 1 <= i && edge_is_used(edges, i) implies #[trigger] edges[i] >= a
            + 1 by {
            assert(edges[n] < edges[i]);
        }
    } else {
        assert forall|i: int| n <= i && edge_is_used(edges, i) implies #[trigger] edges[i] >= a
            + 1 by {
            assert(edges[i] >= a);
            if i == n {
            } else {
                assert(edge_is_used(edges, n));
                assert(edges[n] < edges[i]);
                assert(edges[n] >= a);
            }
        }
    }
}

/// The indices of the used entries of `edges` that lie at or below angle `a`.
pub open spec fn edges_up_to(edges: Seq<i16>, a: int) -> Set<int> {
    Set::new(|i: int| edge_is_used(edges, i) && edges[i] <= a)
}

/// Whether angle `a` is one of the used entries of `edges`.
pub open spec fn is_edge(edges: Seq<i16>, a: int) -> bool {
    exists|i: int| edge_is_used(edges, i) && #[trigger] edges[i] == a
}

/// At an angle that is not itself an edge, the camshaft level is the first
/// level if the number of edges up to that angle is even, and its complement
/// if that number is odd.
pub proof fn lemma_level_counts_edges(cam: Cam, a: int)
    requires
        !is_edge(cam.ev_angles@, a),
    ensures
        cam.level_at(a) == cam.first_level.toggled(edges_up_to(cam.ev_angles@, a).len() as int),
{
    let edges = cam.ev_angles@;
    assert forall|i: int| edges_below(edges, a).contains(i) == edges_up_to(edges, a).contains(
        i,
    ) by {
        if edge_is_used(edges, i) && edges[i] == a {
            assert(is_edge(edges, a));
        }
    }
    assert(edges_below(edges, a) =~= edges_up_to(edges, a));
}

/// The sample that follows angle `a` shows the first level toggled once for
/// each edge up to `a`.
pub proof fn lemma_level_after_counts_edges(cam: Cam, a: int)
    ensures
        cam.level_at(a + 1) == cam.first_level.toggled(
            edges_up_to(cam.ev_angles@, a).len() as int,
        ),
{
    let edges = cam.ev_angles@;
    assert(edges_below(edges, a + 1) =~= edges_up_to(edges, a));
}

/// The camshaft level changes exactly at the edges: the sample that follows
/// angle `a` differs from sample `a` if and only if `a` is an edge.
pub proof fn lemma_level_changes_at_edges(cam: Cam, a: int)
    requires
        cam.wf(),
        0 <= a,
    ensures
        is_edge(cam.ev_angles@, a) ==> cam.level_at(a + 1) == cam.level_at(a).flipped(),
        !is_edge(cam.ev_angles@, a) ==> cam.level_at(a + 1) == cam.level_at(a),
{
    let edges = cam.ev_angles@;
    if is_edge(edges, a) {
        let k = choose|i: int| edge_is_used(edges, i) && #[trigger] edges[i] == a;
        assert forall|i: int| 0 <= i < k implies edge_is_used(edges, i) && #[trigger] edges[i]
            < a by {
            assert(edges[i] < edges[k]);
        }
        assert forall|i: int| k <= i && edge_is_used(edges, i) implies #[trigger] edges[i]
            >= a by {
            if i > k {
                assert(edges[k] < edges[i]);
            }
        }
        assert(edges_split(edges, a, k)) by {
            reveal(edges_split);
        }
        lemma_edges_below_count(edges, a, k);
        lemma_edges_split_next(edges, a, k);
        lemma_edges_below_count(edges, a + 1, k + 1);
    } else {
        lemma_level_counts_edges(cam, a);
        lemma_level_after_counts_edges(cam, a);
    }
}

} // verus!
