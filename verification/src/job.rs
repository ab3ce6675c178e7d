//! Walls and the polyline expansion.
//!
//! A [`WallNode`] is one turtle-graphics move: turn to an absolute
//! orientation, then advance a distance.  A [`WallSegment`] is a start
//! coordinate plus an ordered run of nodes, and expands into the full list
//! of visited coordinates; a [`Space`] is the ordered collection of walls.
//! Every step snaps to the nearest whole unit before the next step runs, so
//! rounding is per step, not cumulative — deliberately, and observably.

use crate::angle::Angle;
use crate::dec::{
    add_of, cos_of, lemma_round_unit_scale0, mul_of, round_unit_of, sin_of, Dec, DecV,
    NumericOverflow,
};
use vstd::prelude::*;

verus! {

/// The mathematical content of a [`WallNode`]: its orientation in radians
/// and its length.
pub ghost struct WallNodeV {
    pub rad: DecV,
    pub len: DecV,
}

/// A directed move: turn to `angle`, then advance `length` units.  A zero
/// length is a no-op translation; a negative length is accepted and lands
/// behind the nominal direction.
#[derive(Clone, Copy, Debug)]
pub struct WallNode {
    pub angle: Angle,
    pub length: Dec,
}

impl View for WallNode {
    type V = WallNodeV;

    open spec fn view(&self) -> WallNodeV {
        WallNodeV { rad: self.angle@, len: self.length@ }
    }
}

/// The x coordinate a node's move reaches from `x`:
/// `round(x + len * cos(rad))`, each operation at `rust_decimal`'s working
/// precision, or `None` when one of them leaves the representable range.
pub open spec fn step_x_of(n: WallNodeV, x: DecV) -> Option<DecV> {
    match cos_of(n.rad) {
        Some(c) => match mul_of(n.len, c) {
            Some(p) => match add_of(x, p) {
                Some(s) => Some(round_unit_of(s)),
                None => None,
            },
            None => None,
        },
        None => None,
    }
}

/// The y coordinate a node's move reaches from `y`:
/// `round(y + len * sin(rad))`, as in [`step_x_of`].
pub open spec fn step_y_of(n: WallNodeV, y: DecV) -> Option<DecV> {
    match sin_of(n.rad) {
        Some(s) => match mul_of(n.len, s) {
            Some(p) => match add_of(y, p) {
                Some(sum) => Some(round_unit_of(sum)),
                None => None,
            },
            None => None,
        },
        None => None,
    }
}

/// Both coordinates of a node's move, or `None` when either overflows.
pub open spec fn step_of(n: WallNodeV, x: DecV, y: DecV) -> Option<(DecV, DecV)> {
    match (step_x_of(n, x), step_y_of(n, y)) {
        (Some(a), Some(b)) => Some((a, b)),
        _ => None,
    }
}

impl WallNode {
    /// The x coordinate this move reaches from `start`.  A zero-length move
    /// from a whole-unit coordinate gives that coordinate back exactly,
    /// whatever the angle.
    pub fn start_to_end_x(&self, start: Dec) -> (r: Result<Dec, NumericOverflow>)
        ensures
            match r {
                Ok(v) => step_x_of(self@, start@) == Some(v@),
                Err(_) => step_x_of(self@, start@) is None,
            },
            self.length@.m == 0 && start@.s == 0 ==> (r matches Ok(v) ==> v@ == start@),
            self.length@.m == 0 && cos_of(self@.rad) is Some ==> r is Ok,
    {
        let rad = self.angle.to_radians();
        let c = match rad.checked_cos() {
            Some(c) => c,
            None => {
                return Err(NumericOverflow);
            },
        };
        let p = match self.length.checked_mul(c) {
            Some(p) => p,
            None => {
                return Err(NumericOverflow);
            },
        };
        let sum = match start.checked_add(p) {
            Some(s) => s,
            None => {
                return Err(NumericOverflow);
            },
        };
        proof {
            if self.length@.m == 0 && start@.s == 0 {
                lemma_round_unit_scale0(sum@);
            }
        }
        Ok(sum.round_unit())
    }

    /// The y coordinate this move reaches from `start`, as in
    /// [`Self::start_to_end_x`].
    pub fn start_to_end_y(&self, start: Dec) -> (r: Result<Dec, NumericOverflow>)
        ensures
            match r {
                Ok(v) => step_y_of(self@, start@) == Some(v@),
                Err(_) => step_y_of(self@, start@) is None,
            },
            self.length@.m == 0 && start@.s == 0 ==> (r matches Ok(v) ==> v@ == start@),
            self.length@.m == 0 && sin_of(self@.rad) is Some ==> r is Ok,
    {
        let rad = self.angle.to_radians();
        let s = match rad.checked_sin() {
            Some(s) => s,
            None => {
                return Err(NumericOverflow);
            },
        };
        let p = match self.length.checked_mul(s) {
            Some(p) => p,
            None => {
                return Err(NumericOverflow);
            },
        };
        let sum = match start.checked_add(p) {
            Some(s) => s,
            None => {
                return Err(NumericOverflow);
            },
        };
        proof {
            if self.length@.m == 0 && start@.s == 0 {
                lemma_round_unit_scale0(sum@);
            }
        }
        Ok(sum.round_unit())
    }

    /// The position this move reaches from `(start_x, start_y)`.  A
    /// zero-length move from a whole-unit position gives the position back
    /// unchanged, whatever the angle.
    pub fn start_to_end(&self, start_x: Dec, start_y: Dec) -> (r: Result<
        (Dec, Dec),
        NumericOverflow,
    >)
        ensures
            match r {
                Ok(p) => step_of(self@, start_x@, start_y@) == Some((p.0@, p.1@)),
                Err(_) => step_of(self@, start_x@, start_y@) is None,
            },
            self.length@.m == 0 && start_x@.s == 0 && start_y@.s == 0 ==> (r matches Ok(p) ==> p.0@
                == start_x@ && p.1@ == start_y@),
            self.length@.m == 0 && cos_of(self@.rad) is Some && sin_of(self@.rad) is Some ==> r
                is Ok,
    {
        let x = match self.start_to_end_x(start_x) {
            Ok(v) => v,
            Err(e) => {
                return Err(e);
            },
        };
        let y = match self.start_to_end_y(start_y) {
            Ok(v) => v,
            Err(e) => {
                return Err(e);
            },
        };
        Ok((x, y))
    }
}

impl Default for WallNode {
    /// A move of length zero along the zero orientation.
    fn default() -> (n: WallNode)
        ensures
            n@ == (WallNodeV { rad: DecV { m: 0, s: 0 }, len: DecV { m: 0, s: 0 } }),
    {
        WallNode { angle: Angle::default(), length: Dec::default() }
    }
}

/// The mathematical content of a [`WallSegment`].
pub ghost struct WallSegmentV {
    pub start_x: DecV,
    pub start_y: DecV,
    pub nodes: Seq<WallNodeV>,
}

/// A wall: an anchor coordinate and the ordered moves that shape it.
#[derive(Clone, Debug)]
pub struct WallSegment {
    pub start_x: Dec,
    pub start_y: Dec,
    pub nodes: Vec<WallNode>,
}

impl View for WallSegment {
    type V = WallSegmentV;

    open spec fn view(&self) -> WallSegmentV {
        WallSegmentV {
            start_x: self.start_x@,
            start_y: self.start_y@,
            nodes: self.nodes@.map_values(|n: WallNode| n@),
        }
    }
}

/// The coordinates visited from `(x, y)` by `nodes` in order, the starting
/// position included, or `None` when some step overflows.
pub open spec fn points_from(x: DecV, y: DecV, nodes: Seq<WallNodeV>) -> Option<
    Seq<(DecV, DecV)>,
>
    decreases nodes.len(),
{
    if nodes.len() == 0 {
        Some(seq![(x, y)])
    } else {
        match step_of(nodes.first(), x, y) {
            Some(p) => match points_from(p.0, p.1, nodes.drop_first()) {
                Some(rest) => Some(seq![(x, y)] + rest),
                None => None,
            },
            None => None,
        }
    }
}

/// The full point sequence of a wall.
pub open spec fn points_of(w: WallSegmentV) -> Option<Seq<(DecV, DecV)>> {
    points_from(w.start_x, w.start_y, w.nodes)
}

/// The mathematical content of a computed point list.
pub open spec fn pts_view(v: Seq<(Dec, Dec)>) -> Seq<(DecV, DecV)> {
    v.map_values(|p: (Dec, Dec)| (p.0@, p.1@))
}

/// Length invariant: a point sequence always has one more entry than the
/// path has nodes.
pub proof fn lemma_points_len(x: DecV, y: DecV, nodes: Seq<WallNodeV>, pts: Seq<(DecV, DecV)>)
    requires
        points_from(x, y, nodes) == Some(pts),
    ensures
        pts.len() == nodes.len() + 1,
    decreases nodes.len(),
{
    if nodes.len() > 0 {
        let stepped = step_of(nodes.first(), x, y);
        let p = stepped.unwrap();
        let rest = points_from(p.0, p.1, nodes.drop_first());
        lemma_points_len(p.0, p.1, nodes.drop_first(), rest.unwrap());
    }
}

/// Anchor invariant: the first entry of a point sequence is the starting
/// position, exactly.
pub proof fn lemma_points_anchor(x: DecV, y: DecV, nodes: Seq<WallNodeV>, pts: Seq<(DecV, DecV)>)
    requires
        points_from(x, y, nodes) == Some(pts),
    ensures
        pts.len() >= 1,
        pts[0] == (x, y),
{
    lemma_points_len(x, y, nodes, pts);
}

/// Determinism: the point sequence is a function of the wall's data alone,
/// so recomputing it without mutating the wall yields the same sequence.
pub proof fn lemma_points_deterministic(
    w: WallSegmentV,
    r1: Option<Seq<(DecV, DecV)>>,
    r2: Option<Seq<(DecV, DecV)>>,
)
    requires
        r1 == points_of(w),
        r2 == points_of(w),
    ensures
        r1 == r2,
{
}

/// An empty wall expands to exactly one point: its anchor.
pub proof fn lemma_points_empty(x: DecV, y: DecV)
    ensures
        points_from(x, y, Seq::<WallNodeV>::empty()) == Some(seq![(x, y)]),
{
}

impl WallSegment {
    /// The ordered coordinates this wall visits: its anchor first, then one
    /// position per node, each obtained by stepping from the previous
    /// position (not from the anchor again).  `Err` when some step leaves
    /// the representable range; a wall without nodes always succeeds.
    pub fn points(&self) -> (r: Result<Vec<(Dec, Dec)>, NumericOverflow>)
        ensures
            match r {
                Ok(v) => {
                    &&& points_of(self@) == Some(pts_view(v@))
                    &&& v@.len() == self.nodes@.len() + 1
                    &&& v@[0] == (self.start_x, self.start_y)
                },
                Err(_) => points_of(self@) is None,
            },
            self.nodes@.len() == 0 ==> r is Ok,
    {
        let mut cursor_x = self.start_x;
        let mut cursor_y = self.start_y;
        let mut result: Vec<(Dec, Dec)> = Vec::new();
        result.push((cursor_x, cursor_y));
        let n = self.nodes.len();
        let mut i: usize = 0;
        proof {
            assert(self@.nodes.skip(0) =~= self@.nodes);
            if points_of(self@) is Some {
                assert(pts_view(result@.drop_last()) + points_of(self@).unwrap() =~= points_of(
                    self@,
                ).unwrap());
            }
        }
        while i < n
            invariant
                n == self.nodes@.len(),
                i <= n,
                result@.len() == i + 1,
                result@[0] == (self.start_x, self.start_y),
                result@.last() == (cursor_x, cursor_y),
                match points_from(cursor_x@, cursor_y@, self@.nodes.skip(i as int)) {
                    Some(t) => points_of(self@) == Some(pts_view(result@.drop_last()) + t),
                    None => points_of(self@) is None,
                },
            decreases n - i,
        {
            proof {
                assert(self@.nodes.skip(i as int).first() == self@.nodes[i as int]);
                assert(self@.nodes[i as int] == self.nodes@[i as int]@);
                assert(self@.nodes.skip(i as int).drop_first() =~= self@.nodes.skip(i + 1));
            }
            let node = self.nodes[i];
            let stepped = match node.start_to_end(cursor_x, cursor_y) {
                Ok(p) => p,
                Err(e) => {
                    return Err(e);
                },
            };
            let ghost prev = result@;
            cursor_x = stepped.0;
            cursor_y = stepped.1;
            result.push((cursor_x, cursor_y));
            i = i + 1;
            proof {
                assert(result@.drop_last() =~= prev);
                let curv = (prev.last().0@, prev.last().1@);
                if points_from(cursor_x@, cursor_y@, self@.nodes.skip(i as int)) is Some {
                    assert(pts_view(prev.drop_last()) + (seq![curv]
                        + points_from(cursor_x@, cursor_y@, self@.nodes.skip(i as int)).unwrap())
                        =~= pts_view(prev) + points_from(
                        cursor_x@,
                        cursor_y@,
                        self@.nodes.skip(i as int),
                    ).unwrap());
                }
            }
        }
        proof {
            assert(self@.nodes.skip(n as int) =~= Seq::<WallNodeV>::empty());
            assert(pts_view(result@.drop_last()) + seq![(cursor_x@, cursor_y@)] =~= pts_view(
                result@,
            ));
        }
        Ok(result)
    }
}

impl Default for WallSegment {
    /// A wall anchored at the origin with no nodes.
    fn default() -> (s: WallSegment)
        ensures
            s@.start_x == (DecV { m: 0, s: 0 }),
            s@.start_y == (DecV { m: 0, s: 0 }),
            s@.nodes == Seq::<WallNodeV>::empty(),
    {
        let s = WallSegment { start_x: Dec::default(), start_y: Dec::default(), nodes: Vec::new() };
        proof {
            assert(s@.nodes =~= Seq::<WallNodeV>::empty());
        }
        s
    }
}

/// The point sequences of every wall in order, or `None` when any wall
/// overflows.
pub open spec fn space_points_of(walls: Seq<WallSegmentV>) -> Option<Seq<Seq<(DecV, DecV)>>>
    decreases walls.len(),
{
    if walls.len() == 0 {
        Some(Seq::empty())
    } else {
        match points_of(walls.first()) {
            Some(first_pts) => match space_points_of(walls.drop_first()) {
                Some(rest) => Some(seq![first_pts] + rest),
                None => None,
            },
            None => None,
        }
    }
}

/// The mathematical content of a computed list of point lists.
pub open spec fn walls_pts_view(v: Seq<Vec<(Dec, Dec)>>) -> Seq<Seq<(DecV, DecV)>> {
    v.map_values(|w: Vec<(Dec, Dec)>| pts_view(w@))
}

/// The top-level model: the ordered walls of a layout.
#[derive(Clone, Debug)]
pub struct Space {
    pub walls: Vec<WallSegment>,
}

impl View for Space {
    type V = Seq<WallSegmentV>;

    open spec fn view(&self) -> Seq<WallSegmentV> {
        self.walls@.map_values(|w: WallSegment| w@)
    }
}

impl Space {
    /// One point sequence per wall, in wall order, recomputed in full from
    /// the current wall data on every call.  `Err` when any wall overflows.
    pub fn points(&self) -> (r: Result<Vec<Vec<(Dec, Dec)>>, NumericOverflow>)
        ensures
            match r {
                Ok(v) => {
                    &&& space_points_of(self@) == Some(walls_pts_view(v@))
                    &&& v@.len() == self.walls@.len()
                },
                Err(_) => space_points_of(self@) is None,
            },
    {
        let mut result: Vec<Vec<(Dec, Dec)>> = Vec::new();
        let n = self.walls.len();
        let mut i: usize = 0;
        proof {
            assert(self@.skip(0) =~= self@);
            if space_points_of(self@) is Some {
                assert(walls_pts_view(result@) + space_points_of(self@).unwrap()
                    =~= space_points_of(self@).unwrap());
            }
        }
        while i < n
            invariant
                n == self.walls@.len(),
                i <= n,
                result@.len() == i,
                match space_points_of(self@.skip(i as int)) {
                    Some(rest) => space_points_of(self@) == Some(walls_pts_view(result@) + rest),
                    None => space_points_of(self@) is None,
                },
            decreases n - i,
        {
            proof {
                assert(self@.skip(i as int).first() == self@[i as int]);
                assert(self@[i as int] == self.walls@[i as int]@);
                assert(self@.skip(i as int).drop_first() =~= self@.skip(i + 1));
            }
            let pts = match self.walls[i].points() {
                Ok(p) => p,
                Err(e) => {
                    return Err(e);
                },
            };
            let ghost prev = result@;
            result.push(pts);
            i = i + 1;
            proof {
                if space_points_of(self@.skip(i as int)) is Some {
                    assert(walls_pts_view(prev) + (seq![pts_view(pts@)] + space_points_of(
                        self@.skip(i as int),
                    ).unwrap()) =~= walls_pts_view(result@) + space_points_of(
                        self@.skip(i as int),
                    ).unwrap());
                }
            }
        }
        proof {
            assert(self@.skip(n as int) =~= Seq::<WallSegmentV>::empty());
            assert(walls_pts_view(result@) + Seq::<Seq<(DecV, DecV)>>::empty() =~= walls_pts_view(
                result@,
            ));
        }
        Ok(result)
    }
}

impl Default for Space {
    /// A layout with no walls.
    fn default() -> (s: Space)
        ensures
            s@ == Seq::<WallSegmentV>::empty(),
    {
        let s = Space { walls: Vec::new() };
        proof {
            assert(s@ =~= Seq::<WallSegmentV>::empty());
        }
        s
    }
}

} // verus!
