//! Focus normalization: walking the screen graph to bring a cursor
//! position onto the screen that contains it.

use vstd::prelude::*;

use super::{screens_wf, Cluster, ClusterView, Dimensions, Focus, Index, ScreenView};

verus! {

/// The margin kept from an edge when the cursor crosses onto a neighbour.
pub const MARGIN: i32 = 2;

/// `v` held to the range of `i32`.
pub open spec fn saturate(v: int) -> i32 {
    if v < i32::MIN {
        i32::MIN
    } else if v > i32::MAX {
        i32::MAX
    } else {
        v as i32
    }
}

/// `v * to / from`, the division rounding toward zero, held to `i32`.
pub open spec fn rescale(v: i32, to: i32, from: i32) -> i32 {
    if v >= 0 {
        saturate(v * to / from as int)
    } else {
        saturate(-((-v) * to / from as int))
    }
}

/// The edge in one direction.
pub enum Direction {
    Top,
    Right,
    Bottom,
    Left,
}

pub open spec fn edge(s: ScreenView, d: Direction) -> Option<Index> {
    match d {
        Direction::Top => s.edges.top,
        Direction::Right => s.edges.right,
        Direction::Bottom => s.edges.bottom,
        Direction::Left => s.edges.left,
    }
}

/// Following edges in direction `d` from screen `i` reaches a screen with no
/// neighbour that way within `k` crossings.
pub open spec fn chain_ends(screens: Seq<ScreenView>, d: Direction, i: int, k: nat) -> bool
    decreases k,
{
    match edge(screens[i], d) {
        Some(j) => k > 0 && chain_ends(screens, d, j as int, (k - 1) as nat),
        None => true,
    }
}

/// The horizontal walk: while `f` lies on or beyond a left or right edge
/// with a neighbour, cross onto the neighbour (keeping `MARGIN` from the
/// far side and rescaling y to the neighbour's height); on an open edge,
/// or once `fuel` crossings are spent, clamp x onto the screen.
pub open spec fn walk_x(screens: Seq<ScreenView>, f: Focus, fuel: nat) -> Focus
    decreases fuel,
{
    let s = screens[f.index as int];
    if f.pos.x <= 0 {
        match s.edges.left {
            Some(j) => {
                if fuel == 0 {
                    Focus { index: f.index, pos: Dimensions { x: 0, y: f.pos.y } }
                } else {
                    let n = screens[j as int];
                    walk_x(
                        screens,
                        Focus {
                            index: j,
                            pos: Dimensions {
                                x: saturate(f.pos.x + n.size.x - MARGIN),
                                y: rescale(f.pos.y, n.size.y, s.size.y),
                            },
                        },
                        (fuel - 1) as nat,
                    )
                }
            },
            None => Focus { index: f.index, pos: Dimensions { x: 0, y: f.pos.y } },
        }
    } else if f.pos.x >= s.size.x - 1 {
        match s.edges.right {
            Some(j) => {
                if fuel == 0 {
                    Focus { index: f.index, pos: Dimensions { x: (s.size.x - 1) as i32, y: f.pos.y } }
                } else {
                    let n = screens[j as int];
                    walk_x(
                        screens,
                        Focus {
                            index: j,
                            pos: Dimensions {
                                x: saturate(f.pos.x - s.size.x + MARGIN),
                                y: rescale(f.pos.y, n.size.y, s.size.y),
                            },
                        },
                        (fuel - 1) as nat,
                    )
                }
            },
            None => Focus { index: f.index, pos: Dimensions { x: (s.size.x - 1) as i32, y: f.pos.y } },
        }
    } else {
        f
    }
}

/// The vertical walk, as `walk_x` with the axes exchanged.
pub open spec fn walk_y(screens: Seq<ScreenView>, f: Focus, fuel: nat) -> Focus
    decreases fuel,
{
    let s = screens[f.index as int];
    if f.pos.y <= 0 {
        match s.edges.top {
            Some(j) => {
                if fuel == 0 {
                    Focus { index: f.index, pos: Dimensions { x: f.pos.x, y: 0 } }
                } else {
                    let n = screens[j as int];
                    walk_y(
                        screens,
                        Focus {
                            index: j,
                            pos: Dimensions {
                                x: rescale(f.pos.x, n.size.x, s.size.x),
                                y: saturate(f.pos.y + n.size.y - MARGIN),
                            },
                        },
                        (fuel - 1) as nat,
                    )
                }
            },
            None => Focus { index: f.index, pos: Dimensions { x: f.pos.x, y: 0 } },
        }
    } else if f.pos.y >= s.size.y - 1 {
        match s.edges.bottom {
            Some(j) => {
                if fuel == 0 {
                    Focus { index: f.index, pos: Dimensions { x: f.pos.x, y: (s.size.y - 1) as i32 } }
                } else {
                    let n = screens[j as int];
                    walk_y(
                        screens,
                        Focus {
                            index: j,
                            pos: Dimensions {
                                x: rescale(f.pos.x, n.size.x, s.size.x),
                                y: saturate(f.pos.y - s.size.y + MARGIN),
                            },
                        },
                        (fuel - 1) as nat,
                    )
                }
            },
            None => Focus { index: f.index, pos: Dimensions { x: f.pos.x, y: (s.size.y - 1) as i32 } },
        }
    } else {
        f
    }
}

impl ClusterView {
    /// Screen `i` is at least two units high or has no neighbour above: on
    /// a screen one unit high the bottom row is also the top row.
    pub open spec fn tall_or_open_above(self, i: int) -> bool {
        self.screens[i].size.y >= 2 || self.screens[i].edges.top is None
    }

    /// No chain of edges in one direction runs in a circle.
    pub open spec fn acyclic(self) -> bool {
        forall|i: int, d: Direction|
            0 <= i < self.len() ==> #[trigger] chain_ends(self.screens, d, i, self.len())
    }

    /// `f` is left as it is by the horizontal walk.
    pub open spec fn x_settled(self, f: Focus) -> bool {
        let s = self.screens[f.index as int];
        if f.pos.x <= 0 {
            f.pos.x == 0 && s.edges.left is None
        } else if f.pos.x >= s.size.x - 1 {
            f.pos.x == s.size.x - 1 && s.edges.right is None
        } else {
            true
        }
    }

    /// `f` is left as it is by the vertical walk.
    pub open spec fn y_settled(self, f: Focus) -> bool {
        let s = self.screens[f.index as int];
        if f.pos.y <= 0 {
            f.pos.y == 0 && s.edges.top is None
        } else if f.pos.y >= s.size.y - 1 {
            f.pos.y == s.size.y - 1 && s.edges.bottom is None
        } else {
            true
        }
    }

    /// The focus re-projected onto the screen that contains it: the x axis
    /// is resolved first, then the y axis against the screen reached. Each
    /// walk crosses at most as many edges as there are screens; past that it
    /// clamps, as on a screen with no neighbour.
    pub open spec fn normalize(self, f: Focus) -> Focus {
        walk_y(self.screens, walk_x(self.screens, f, self.len()), self.len())
    }
}

/// Exact `a + b - c` for the walk's crossings, held to `i32`.
pub(crate) fn shift(a: i32, b: i32, c: i32) -> (r: i32)
    ensures
        r == saturate(a + b - c),
{
    let v: i64 = a as i64 + b as i64 - c as i64;
    if v < i32::MIN as i64 {
        i32::MIN
    } else if v > i32::MAX as i64 {
        i32::MAX
    } else {
        v as i32
    }
}

/// Proportional rescale of a coordinate between two screen extents.
fn rescale_exec(v: i32, to: i32, from: i32) -> (r: i32)
    requires
        to >= 1,
        from >= 1,
    ensures
        r == rescale(v, to, from),
{
    let m: u64 = if v >= 0 { v as u64 } else { (-(v as i64)) as u64 };
    assert(m * (to as u64) <= 0x8000_0000u64 * 0x8000_0000u64) by (nonlinear_arith)
        requires m <= 0x8000_0000u64, 0 < to <= 0x7fff_ffff;
    let p: u64 = m * (to as u64);
    let q: u64 = p / (from as u64);
    assert(q <= p) by (nonlinear_arith)
        requires
            q == p as int / from as int,
            from >= 1,
            p >= 0,
    ;
    if v >= 0 {
        if q > i32::MAX as u64 {
            i32::MAX
        } else {
            q as i32
        }
    } else {
        if q > 0x8000_0000u64 {
            i32::MIN
        } else {
            (-(q as i64)) as i32
        }
    }
}

impl Cluster {
    /// The horizontal walk of `normalize`.
    fn normalize_x(&self, focus: Focus) -> (r: Focus)
        requires
            screens_wf(self@.screens),
            focus.index < self@.len(),
        ensures
            r == walk_x(self@.screens, focus, self@.len()),
            r.index < self@.len(),
    {
        let ghost c = self@;
        let mut f = focus;
        let mut fuel: usize = self.screens.len();
        loop
            invariant
                c == self@,
                screens_wf(c.screens),
                f.index < c.len(),
                fuel <= c.len(),
                walk_x(c.screens, f, fuel as nat) == walk_x(c.screens, focus, c.len()),
            decreases fuel,
        {
            let s = &self.screens[f.index as usize];
            assert(s@ == c.screens[f.index as int]);
            assert(c.screens[f.index as int].wf(c.len()));
            if f.pos.x <= 0 {
                match s.edges.left {
                    Some(j) => {
                        if fuel == 0 {
                            return Focus { index: f.index, pos: Dimensions { x: 0, y: f.pos.y } };
                        }
                        let n = &self.screens[j as usize];
                        assert(n@ == c.screens[j as int]);
                        assert(c.screens[j as int].wf(c.len()));
                        f = Focus {
                            index: j,
                            pos: Dimensions {
                                x: shift(f.pos.x, n.size.x, MARGIN),
                                y: rescale_exec(f.pos.y, n.size.y, s.size.y),
                            },
                        };
                        fuel = fuel - 1;
                    },
                    None => {
                        return Focus { index: f.index, pos: Dimensions { x: 0, y: f.pos.y } };
                    },
                }
            } else if f.pos.x >= s.size.x - 1 {
                match s.edges.right {
                    Some(j) => {
                        if fuel == 0 {
                            return Focus {
                                index: f.index,
                                pos: Dimensions { x: s.size.x - 1, y: f.pos.y },
                            };
                        }
                        let n = &self.screens[j as usize];
                        assert(n@ == c.screens[j as int]);
                        assert(c.screens[j as int].wf(c.len()));
                        f = Focus {
                            index: j,
                            pos: Dimensions {
                                x: shift(f.pos.x, MARGIN, s.size.x),
                                y: rescale_exec(f.pos.y, n.size.y, s.size.y),
                            },
                        };
                        fuel = fuel - 1;
                    },
                    None => {
                        return Focus {
                            index: f.index,
                            pos: Dimensions { x: s.size.x - 1, y: f.pos.y },
                        };
                    },
                }
            } else {
                return f;
            }
        }
    }

    /// The vertical walk of `normalize`.
    fn normalize_y(&self, focus: Focus) -> (r: Focus)
        requires
            screens_wf(self@.screens),
            focus.index < self@.len(),
        ensures
            r == walk_y(self@.screens, focus, self@.len()),
            r.index < self@.len(),
    {
        let ghost c = self@;
        let mut f = focus;
        let mut fuel: usize = self.screens.len();
        loop
            invariant
                c == self@,
                screens_wf(c.screens),
                f.index < c.len(),
                fuel <= c.len(),
                walk_y(c.screens, f, fuel as nat) == walk_y(c.screens, focus, c.len()),
            decreases fuel,
        {
            let s = &self.screens[f.index as usize];
            assert(s@ == c.screens[f.index as int]);
            assert(c.screens[f.index as int].wf(c.len()));
            if f.pos.y <= 0 {
                match s.edges.top {
                    Some(j) => {
                        if fuel == 0 {
                            return Focus { index: f.index, pos: Dimensions { x: f.pos.x, y: 0 } };
                        }
                        let n = &self.screens[j as usize];
                        assert(n@ == c.screens[j as int]);
                        assert(c.screens[j as int].wf(c.len()));
                        f = Focus {
                            index: j,
                            pos: Dimensions {
                                x: rescale_exec(f.pos.x, n.size.x, s.size.x),
                                y: shift(f.pos.y, n.size.y, MARGIN),
                            },
                        };
                        fuel = fuel - 1;
                    },
                    None => {
                        return Focus { index: f.index, pos: Dimensions { x: f.pos.x, y: 0 } };
                    },
                }
            } else if f.pos.y >= s.size.y - 1 {
                match s.edges.bottom {
                    Some(j) => {
                        if fuel == 0 {
                            return Focus {
                                index: f.index,
                                pos: Dimensions { x: f.pos.x, y: s.size.y - 1 },
                            };
                        }
                        let n = &self.screens[j as usize];
                        assert(n@ == c.screens[j as int]);
                        assert(c.screens[j as int].wf(c.len()));
                        f = Focus {
                            index: j,
                            pos: Dimensions {
                                x: rescale_exec(f.pos.x, n.size.x, s.size.x),
                                y: shift(f.pos.y, MARGIN, s.size.y),
                            },
                        };
                        fuel = fuel - 1;
                    },
                    None => {
                        return Focus {
                            index: f.index,
                            pos: Dimensions { x: f.pos.x, y: s.size.y - 1 },
                        };
                    },
                }
            } else {
                return f;
            }
        }
    }

    /// The focus re-projected onto the screen that contains it (see
    /// `ClusterView::normalize`); the result always lies within its screen.
    pub fn normalize_focus(&self, focus: Focus) -> (r: Focus)
        requires
            screens_wf(self@.screens),
            focus.index < self@.len(),
        ensures
            r == self@.normalize(focus),
            self@.in_bounds(r),
    {
        let fx = self.normalize_x(focus);
        proof {
            lemma_walk_x_bounds(self@, focus, self@.len());
        }
        let r = self.normalize_y(fx);
        proof {
            lemma_walk_y_bounds(self@, fx, self@.len());
        }
        r
    }
}

proof fn lemma_rescale_in_range(v: i32, to: i32, from: i32)
    requires
        0 <= v < from,
        to >= 1,
    ensures
        0 <= rescale(v, to, from) < to,
{
    let p = v * to;
    assert(p < from * to) by (nonlinear_arith)
        requires
            0 <= v < from,
            to >= 1,
            p == v * to,
    ;
    assert(0 <= p);
    let q = p / from as int;
    vstd::arithmetic::div_mod::lemma_fundamental_div_mod(p, from as int);
    assert(q < to) by (nonlinear_arith)
        requires
            p == from * q + p % (from as int),
            0 <= p % (from as int),
            p < from * to,
            from >= 1,
    ;
    assert(q >= 0) by (nonlinear_arith)
        requires
            p >= 0,
            from >= 1,
            q == p / from as int,
    ;
}

proof fn lemma_walk_x_bounds(c: ClusterView, f: Focus, fuel: nat)
    requires
        screens_wf(c.screens),
        f.index < c.len(),
    ensures
        walk_x(c.screens, f, fuel).index < c.len(),
        0 <= walk_x(c.screens, f, fuel).pos.x < c.screens[walk_x(c.screens, f, fuel).index as int].size.x,
    decreases fuel,
{
    let s = c.screens[f.index as int];
    assert(s.wf(c.len()));
    if fuel > 0 {
        if f.pos.x <= 0 {
            if let Some(j) = s.edges.left {
                let n = c.screens[j as int];
                lemma_walk_x_bounds(
                    c,
                    Focus {
                        index: j,
                        pos: Dimensions {
                            x: saturate(f.pos.x + n.size.x - MARGIN),
                            y: rescale(f.pos.y, n.size.y, s.size.y),
                        },
                    },
                    (fuel - 1) as nat,
                );
            }
        } else if f.pos.x >= s.size.x - 1 {
            if let Some(j) = s.edges.right {
                let n = c.screens[j as int];
                lemma_walk_x_bounds(
                    c,
                    Focus {
                        index: j,
                        pos: Dimensions {
                            x: saturate(f.pos.x - s.size.x + MARGIN),
                            y: rescale(f.pos.y, n.size.y, s.size.y),
                        },
                    },
                    (fuel - 1) as nat,
                );
            }
        }
    }
}

proof fn lemma_walk_y_bounds(c: ClusterView, f: Focus, fuel: nat)
    requires
        screens_wf(c.screens),
        f.index < c.len(),
        0 <= f.pos.x < c.screens[f.index as int].size.x,
    ensures
        c.in_bounds(walk_y(c.screens, f, fuel)),
    decreases fuel,
{
    let s = c.screens[f.index as int];
    assert(s.wf(c.len()));
    if fuel > 0 {
        if f.pos.y <= 0 {
            if let Some(j) = s.edges.top {
                let n = c.screens[j as int];
                assert(n.wf(c.len()));
                lemma_rescale_in_range(f.pos.x, n.size.x, s.size.x);
                lemma_walk_y_bounds(
                    c,
                    Focus {
                        index: j,
                        pos: Dimensions {
                            x: rescale(f.pos.x, n.size.x, s.size.x),
                            y: saturate(f.pos.y + n.size.y - MARGIN),
                        },
                    },
                    (fuel - 1) as nat,
                );
            }
        } else if f.pos.y >= s.size.y - 1 {
            if let Some(j) = s.edges.bottom {
                let n = c.screens[j as int];
                assert(n.wf(c.len()));
                lemma_rescale_in_range(f.pos.x, n.size.x, s.size.x);
                lemma_walk_y_bounds(
                    c,
                    Focus {
                        index: j,
                        pos: Dimensions {
                            x: rescale(f.pos.x, n.size.x, s.size.x),
                            y: saturate(f.pos.y - s.size.y + MARGIN),
                        },
                    },
                    (fuel - 1) as nat,
                );
            }
        }
    }
}

proof fn lemma_settled_fixed(c: ClusterView, f: Focus, fuel: nat)
    ensures
        c.x_settled(f) ==> walk_x(c.screens, f, fuel) == f,
        c.y_settled(f) ==> walk_y(c.screens, f, fuel) == f,
{
}

proof fn lemma_walk_y_settles(c: ClusterView, f: Focus, fuel: nat)
    requires
        screens_wf(c.screens),
        f.index < c.len(),
        c.tall_or_open_above(walk_y(c.screens, f, fuel).index as int),
        f.pos.y <= 0 ==> chain_ends(c.screens, Direction::Top, f.index as int, fuel),
        f.pos.y >= c.screens[f.index as int].size.y - 1 ==> chain_ends(
            c.screens,
            Direction::Bottom,
            f.index as int,
            fuel,
        ),
    ensures
        c.y_settled(walk_y(c.screens, f, fuel)),
    decreases fuel,
{
    let s = c.screens[f.index as int];
    assert(s.wf(c.len()));
    if f.pos.y <= 0 {
        if let Some(j) = s.edges.top {
            let n = c.screens[j as int];
            assert(n.wf(c.len()));
            lemma_walk_y_settles(
                c,
                Focus {
                    index: j,
                    pos: Dimensions {
                        x: rescale(f.pos.x, n.size.x, s.size.x),
                        y: saturate(f.pos.y + n.size.y - MARGIN),
                    },
                },
                (fuel - 1) as nat,
            );
        }
    } else if f.pos.y >= s.size.y - 1 {
        if let Some(j) = s.edges.bottom {
            let n = c.screens[j as int];
            assert(n.wf(c.len()));
            lemma_walk_y_settles(
                c,
                Focus {
                    index: j,
                    pos: Dimensions {
                        x: rescale(f.pos.x, n.size.x, s.size.x),
                        y: saturate(f.pos.y - s.size.y + MARGIN),
                    },
                },
                (fuel - 1) as nat,
            );
        }
    }
}

/// Normalizing twice is normalizing once, on a topology where no chain of
/// edges runs in a circle. The one exception: the vertical walk rescales x
/// onto the screen it reaches, and where that lands exactly on a left or
/// right edge with a neighbour, a second normalization crosses it; so the
/// once-normalized focus is asked to be settled horizontally. Likewise, a
/// focus clamped from below onto a screen one unit high that has a
/// neighbour above lies on its top row, which a second normalization
/// crosses; so that screen is asked to be taller or open above.
pub proof fn lemma_normalize_idempotent(c: ClusterView, f: Focus)
    requires
        screens_wf(c.screens),
        c.acyclic(),
        f.index < c.len(),
        c.x_settled(c.normalize(f)),
        c.tall_or_open_above(c.normalize(f).index as int),
    ensures
        c.normalize(c.normalize(f)) == c.normalize(f),
{
    let fx = walk_x(c.screens, f, c.len());
    let g = c.normalize(f);
    lemma_walk_x_bounds(c, f, c.len());
    assert(chain_ends(c.screens, Direction::Top, fx.index as int, c.len()));
    assert(chain_ends(c.screens, Direction::Bottom, fx.index as int, c.len()));
    lemma_walk_y_settles(c, fx, c.len());
    lemma_settled_fixed(c, g, c.len());
}

} // verus!
