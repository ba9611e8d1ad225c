//! The chain of point masses: construction, per-frame integration, and the
//! iterative distance-constraint solver.

use vstd::prelude::*;

verus! {

use vstd::arithmetic::div_mod::{lemma_div_is_ordered, lemma_div_by_multiple};

use crate::fixed::{
    clamp, div_trunc, sqrt_floor, clamp_i128, div_trunc_i128, isqrt_u64, SCALE,
};
use crate::node::{Vec2, Vec2V, Node, NodeV, stepped, node_in_bounds};

/// Denominator of the under-relaxation factor: `damping` is given in
/// thousandths.
pub const DAMP_DEN: i64 = 1000;

/// Largest accepted gravity magnitude (units per second squared).
pub const GRAV_LIMIT: i64 = 2_000_000_000;

/// Largest accepted timestep (microseconds; one second).
pub const DT_LIMIT: i64 = 1_000_000;

/// Largest accepted rest length (units).
pub const REST_LIMIT: i64 = 1_000_000_000;

/// Simulation parameters, fixed for the lifetime of a chain.
#[derive(Clone, Copy)]
pub struct Config {
    /// Target distance between adjacent nodes, in units.
    pub rest_length: i64,
    /// Under-relaxation factor applied to each correction, in thousandths;
    /// damps the solver so repeated passes converge smoothly.
    pub damping: i64,
    /// Downward gravitational acceleration, in units per second squared.
    pub gravity: i64,
    /// Integration timestep, in microseconds.
    pub dt: i64,
    /// Number of constraint-relaxation passes per frame.
    pub iterations: usize,
}

impl Config {
    /// The parameter ranges the solver's arithmetic is proved safe for.
    pub open spec fn valid(self) -> bool {
        &&& 0 <= self.rest_length <= REST_LIMIT
        &&& 0 <= self.damping <= DAMP_DEN
        &&& 0 <= self.gravity <= GRAV_LIMIT
        &&& 0 <= self.dt <= DT_LIMIT
    }
}

/// The default parameters: ten-pixel rest length, one-tenth damping,
/// 9.8 pixels per second squared of gravity, a sixtieth of a second per
/// step, and fifty relaxation passes per frame.
pub open spec fn default_config() -> Config {
    Config {
        rest_length: 10_000_000,
        damping: 100,
        gravity: 9_800_000,
        dt: 16_700,
        iterations: 50,
    }
}

impl Default for Config {
    fn default() -> (c: Config)
        ensures
            c == default_config(),
            c.valid(),
    {
        Config {
            rest_length: 10_000_000,
            damping: 100,
            gravity: 9_800_000,
            dt: 16_700,
            iterations: 50,
        }
    }
}

/// The per-step acceleration term: gravity times the squared timestep,
/// rescaled from microseconds to units.
pub open spec fn accel_of(g: int, dt: int) -> int {
    (g * dt * dt) / (SCALE as int * SCALE as int)
}

/// Compute the per-step acceleration term.
pub fn accel_step(gravity: i64, dt: i64) -> (a: i64)
    requires
        0 <= gravity <= GRAV_LIMIT,
        0 <= dt <= DT_LIMIT,
    ensures
        a as int == accel_of(gravity as int, dt as int),
        0 <= a <= gravity,
{
    proof {
        let g = gravity as int;
        let t = dt as int;
        let s = SCALE as int;
        assert(g * t <= 2_000_000_000 * 1_000_000 && 0 <= g * t) by (nonlinear_arith)
            requires
                0 <= g <= 2_000_000_000,
                0 <= t <= 1_000_000,
        ;
        assert((g * t) * t <= 2_000_000_000_000_000 * 1_000_000 && 0 <= (g * t) * t)
            by (nonlinear_arith)
            requires
                0 <= g * t <= 2_000_000_000_000_000,
                0 <= t <= 1_000_000,
        ;
        assert(g * t * t <= g * (s * s)) by (nonlinear_arith)
            requires
                0 <= g,
                0 <= t <= s,
        ;
        lemma_div_is_ordered(g * t * t, g * (s * s), s * s);
        lemma_div_by_multiple(g, s * s);
        assert((g * (s * s)) / (s * s) == g);
    }
    let num: u128 = (gravity as u128) * (dt as u128) * (dt as u128);
    let den: u128 = (SCALE as u128) * (SCALE as u128);
    let q: u128 = num / den;
    q as i64
}

/// The chain itself: an ordered sequence of nodes, adjacent ones tied by a
/// distance constraint.
pub struct Rope {
    pub nodes: Vec<Node>,
    pub nodes_len: usize,
    pub config: Config,
}

impl View for Rope {
    type V = Seq<NodeV>;

    open spec fn view(&self) -> Seq<NodeV> {
        self.nodes@.map_values(|n: Node| n@)
    }
}

/// The initial chain: `len` nodes at rest, placed vertically below the
/// anchor at `rest` units of spacing.
pub open spec fn init_chain(len: nat, x: int, y: int, rest: int) -> Seq<NodeV> {
    Seq::new(
        len,
        |i: int|
            NodeV {
                position: Vec2V { x: clamp(x), y: clamp(y + i * rest) },
                old_position: Vec2V { x: clamp(x), y: clamp(y + i * rest) },
            },
    )
}

/// Every node of the chain after one integration step.
pub open spec fn sim_chain(s: Seq<NodeV>, ax: int, ay: int) -> Seq<NodeV> {
    Seq::new(s.len(), |i: int| stepped(s[i], ax, ay))
}

/// Euclidean distance between two coordinates, rounded down.
pub open spec fn pair_dist(a: Vec2V, b: Vec2V) -> int {
    sqrt_floor((a.x - b.x) * (a.x - b.x) + (a.y - b.y) * (a.y - b.y))
}

/// The damped correction applied to the left node of a pair (the right
/// node receives its negation). Zero when the nodes coincide, which guards
/// the division by the distance.
pub open spec fn pair_offset(a: Vec2V, b: Vec2V, rest: int, damp: int) -> Vec2V {
    let d = pair_dist(a, b);
    if d > 0 {
        Vec2V {
            x: div_trunc((a.x - b.x) * damp * (rest - d), (DAMP_DEN as int) * d),
            y: div_trunc((a.y - b.y) * damp * (rest - d), (DAMP_DEN as int) * d),
        }
    } else {
        Vec2V { x: 0, y: 0 }
    }
}

/// One relaxation of the pair `(i, i + 1)`: equal and opposite corrections,
/// saturated to the coordinate range.
pub open spec fn pair_step(s: Seq<NodeV>, i: int, rest: int, damp: int) -> Seq<NodeV> {
    let off = pair_offset(s[i].position, s[i + 1].position, rest, damp);
    s.update(
        i,
        NodeV {
            position: Vec2V {
                x: clamp(s[i].position.x + off.x),
                y: clamp(s[i].position.y + off.y),
            },
            old_position: s[i].old_position,
        },
    ).update(
        i + 1,
        NodeV {
            position: Vec2V {
                x: clamp(s[i + 1].position.x - off.x),
                y: clamp(s[i + 1].position.y - off.y),
            },
            old_position: s[i + 1].old_position,
        },
    )
}

/// The chain after relaxing the first `k` adjacent pairs, left to right.
/// Each pair sees the corrections already applied to its left neighbour
/// (Gauss-Seidel style).
pub open spec fn pass_prefix(s: Seq<NodeV>, rest: int, damp: int, k: nat) -> Seq<NodeV>
    decreases k,
{
    if k == 0 {
        s
    } else {
        pair_step(pass_prefix(s, rest, damp, (k - 1) as nat), k - 1 as int, rest, damp)
    }
}

/// One full left-to-right relaxation pass over every adjacent pair.
pub open spec fn pass(s: Seq<NodeV>, rest: int, damp: int) -> Seq<NodeV> {
    if s.len() == 0 {
        s
    } else {
        pass_prefix(s, rest, damp, (s.len() - 1) as nat)
    }
}

/// The chain with its first node pinned to the (saturated) pointer
/// coordinate; empty chains are left as they are.
pub open spec fn pinned(s: Seq<NodeV>, px: int, py: int) -> Seq<NodeV> {
    if s.len() == 0 {
        s
    } else {
        s.update(
            0,
            NodeV {
                position: Vec2V { x: clamp(px), y: clamp(py) },
                old_position: s[0].old_position,
            },
        )
    }
}

/// One constraint iteration of the per-frame protocol: re-pin the anchor to
/// the pointer, run a relaxation pass, and pin again so the anchor ends the
/// iteration exactly on the pointer.
pub open spec fn relaxed(s: Seq<NodeV>, rest: int, damp: int, px: int, py: int) -> Seq<NodeV> {
    pinned(pass(pinned(s, px, py), rest, damp), px, py)
}

/// `n` constraint iterations in a row.
pub open spec fn relaxed_n(s: Seq<NodeV>, rest: int, damp: int, px: int, py: int, n: nat)
    -> Seq<NodeV>
    decreases n,
{
    if n == 0 {
        s
    } else {
        relaxed(relaxed_n(s, rest, damp, px, py, (n - 1) as nat), rest, damp, px, py)
    }
}

/// One whole frame: integrate every node, then run the configured number of
/// constraint iterations against the pointer coordinate.
pub open spec fn framed(s: Seq<NodeV>, config: Config, px: int, py: int) -> Seq<NodeV> {
    relaxed_n(
        sim_chain(s, 0, accel_of(config.gravity as int, config.dt as int)),
        config.rest_length as int,
        config.damping as int,
        px,
        py,
        config.iterations as nat,
    )
}

impl Rope {
    /// Well-formedness: the recorded length matches the storage, the
    /// parameters are in range, and every coordinate is in the saturated
    /// range.
    pub open spec fn wf(self) -> bool {
        &&& self.nodes_len == self.nodes@.len()
        &&& self.config.valid()
        &&& forall|i: int| 0 <= i < self@.len() ==> node_in_bounds(#[trigger] self@[i])
    }

    /// A chain of `nodes_len` nodes hanging below the anchor `(x, y)`, with
    /// the given parameters.
    pub fn with_config(nodes_len: usize, x: i64, y: i64, config: Config) -> (rope: Rope)
        requires
            config.valid(),
        ensures
            rope.wf(),
            rope.nodes_len == nodes_len,
            rope.config == config,
            rope@ == init_chain(nodes_len as nat, x as int, y as int, config.rest_length as int),
    {
        let mut nodes: Vec<Node> = Vec::new();
        let cx: i64 = clamp_i128(x as i128);
        let mut i: usize = 0;
        while i < nodes_len
            invariant
                i <= nodes_len,
                nodes@.len() == i,
                config.valid(),
                cx as int == clamp(x as int),
                forall|j: int| 0 <= j < i ==> nodes@.map_values(|n: Node| n@)[j]
                    == init_chain(nodes_len as nat, x as int, y as int,
                        config.rest_length as int)[j],
            decreases nodes_len - i,
        {
            proof {
                assert((i as int) * (config.rest_length as int)
                    <= 18_446_744_073_709_551_615 * 1_000_000_000
                    && 0 <= (i as int) * (config.rest_length as int)) by (nonlinear_arith)
                    requires
                        0 <= i <= 18_446_744_073_709_551_615,
                        0 <= config.rest_length <= 1_000_000_000,
                ;
            }
            let cy: i64 = clamp_i128(y as i128 + (i as i128) * (config.rest_length as i128));
            nodes.push(Node::new(cx, cy));
            i += 1;
        }
        let rope = Rope { nodes, nodes_len, config };
        proof {
            assert(rope@ =~= init_chain(nodes_len as nat, x as int, y as int,
                config.rest_length as int));
        }
        rope
    }

    /// A chain with the default parameters (see `default_config`).
    pub fn new(nodes_len: usize, x: i64, y: i64) -> (rope: Rope)
        ensures
            rope.wf(),
            rope.nodes_len == nodes_len,
            rope.config == default_config(),
            rope@ == init_chain(nodes_len as nat, x as int, y as int,
                default_config().rest_length as int),
    {
        Rope::with_config(nodes_len, x, y, Config::default())
    }

    /// One integration step for every node, in index order, under the
    /// chain's gravity and timestep.
    pub fn simulate(&mut self)
        requires
            old(self).wf(),
        ensures
            final(self).wf(),
            final(self).config == old(self).config,
            final(self).nodes_len == old(self).nodes_len,
            final(self)@ == sim_chain(old(self)@, 0,
                accel_of(old(self).config.gravity as int, old(self).config.dt as int)),
    {
        let ay: i64 = accel_step(self.config.gravity, self.config.dt);
        let accel = Vec2 { x: 0, y: ay };
        let mut i: usize = 0;
        while i < self.nodes_len
            invariant
                i <= self.nodes_len,
                self.nodes_len == self.nodes@.len(),
                self.config == old(self).config,
                old(self).wf(),
                accel@.x == 0,
                accel@.y == accel_of(old(self).config.gravity as int,
                    old(self).config.dt as int),
                self@.len() == old(self)@.len(),
                forall|j: int| 0 <= j < i ==> self@[j]
                    == sim_chain(old(self)@, 0, accel@.y)[j],
                forall|j: int| i <= j < self@.len() ==> self@[j] == old(self)@[j],
            decreases self.nodes_len - i,
        {
            let ghost prev = self@;
            let mut n = self.nodes[i];
            proof {
                assert(n@ == prev[i as int]);
                assert(prev[i as int] == old(self)@[i as int]);
            }
            n.step(accel);
            self.nodes.set(i, n);
            proof {
                assert forall|j: int| 0 <= j < i + 1 implies self@[j]
                    == sim_chain(old(self)@, 0, accel@.y)[j] by {
                    if j == i {
                        assert(self@[j] == stepped(old(self)@[j], 0, accel@.y));
                        assert(sim_chain(old(self)@, 0, accel@.y)[j]
                            == stepped(old(self)@[j], 0, accel@.y));
                    } else {
                        assert(self@[j] == prev[j]);
                        assert(prev[j] == sim_chain(old(self)@, 0, accel@.y)[j]);
                    }
                }
            }
            i += 1;
        }
        proof {
            assert(self@ =~= sim_chain(old(self)@, 0,
                accel_of(old(self).config.gravity as int, old(self).config.dt as int)));
            assert forall|j: int| 0 <= j < self@.len() implies node_in_bounds(
                #[trigger] self@[j]) by {
                assert(node_in_bounds(old(self)@[j]));
            }
        }
    }

    /// One relaxation pass: each adjacent pair, left to right, is nudged
    /// toward the rest length by equal and opposite damped corrections. A
    /// chain of at most one node is left untouched.
    pub fn constraints(&mut self)
        requires
            old(self).wf(),
        ensures
            final(self).wf(),
            final(self).config == old(self).config,
            final(self).nodes_len == old(self).nodes_len,
            final(self)@ == pass(old(self)@, old(self).config.rest_length as int,
                old(self).config.damping as int),
            old(self)@.len() <= 1 ==> final(self)@ == old(self)@,
    {
        let ghost s0 = self@;
        let ghost restg = self.config.rest_length as int;
        let ghost dampg = self.config.damping as int;
        if self.nodes_len == 0 {
            return;
        }
        let rest: i64 = self.config.rest_length;
        let damp: i64 = self.config.damping;
        let mut i: usize = 0;
        while i < self.nodes_len - 1
            invariant
                self.nodes_len >= 1,
                i <= self.nodes_len - 1,
                self.nodes_len == self.nodes@.len(),
                self.config == old(self).config,
                rest == self.config.rest_length,
                damp == self.config.damping,
                self.config.valid(),
                s0 == old(self)@,
                restg == rest as int,
                dampg == damp as int,
                self@.len() == s0.len(),
                self@ == pass_prefix(s0, restg, dampg, i as nat),
                forall|j: int| 0 <= j < self@.len() ==> node_in_bounds(#[trigger] self@[j]),
            decreases self.nodes_len - 1 - i,
        {
            let ghost prev = self@;
            let a: Vec2 = self.nodes[i].position;
            let b: Vec2 = self.nodes[i + 1].position;
            proof {
                assert(node_in_bounds(prev[i as int]));
                assert(node_in_bounds(prev[i + 1 as int]));
                assert(a@ == prev[i as int].position);
                assert(b@ == prev[i + 1 as int].position);
            }
            let dx: i64 = a.x - b.x;
            let dy: i64 = a.y - b.y;
            proof {
                assert((dx as int) * (dx as int) <= 4_611_686_018_427_387_904
                    && 0 <= (dx as int) * (dx as int)) by (nonlinear_arith)
                    requires
                        -2_147_483_648 <= dx <= 2_147_483_648,
                ;
                assert((dy as int) * (dy as int) <= 4_611_686_018_427_387_904
                    && 0 <= (dy as int) * (dy as int)) by (nonlinear_arith)
                    requires
                        -2_147_483_648 <= dy <= 2_147_483_648,
                ;
            }
            let dsq: i128 = (dx as i128) * (dx as i128) + (dy as i128) * (dy as i128);
            let d: u64 = isqrt_u64(dsq as u64);
            proof {
                assert(d as int == pair_dist(prev[i as int].position,
                    prev[i + 1 as int].position));
                assert((d as int) <= 3_100_000_000) by (nonlinear_arith)
                    requires
                        0 <= d,
                        (d as int) * (d as int) <= 9_223_372_036_854_775_808,
                ;
            }
            if d > 0 {
                let rd: i128 = (rest as i128) - (d as i128);
                proof {
                    assert(1000 * (d as int) <= 3_100_000_000_000 && 0 < 1000 * (d as int))
                        by (nonlinear_arith)
                        requires
                            0 < d <= 3_100_000_000,
                    ;
                }
                let den: i128 = (DAMP_DEN as i128) * (d as i128);
                proof {
                    assert((dx as int) * (damp as int) <= 2_147_483_648_000
                        && (dx as int) * (damp as int) >= -2_147_483_648_000)
                        by (nonlinear_arith)
                        requires
                            -2_147_483_648 <= dx <= 2_147_483_648,
                            0 <= damp <= 1000,
                    ;
                    assert((dy as int) * (damp as int) <= 2_147_483_648_000
                        && (dy as int) * (damp as int) >= -2_147_483_648_000)
                        by (nonlinear_arith)
                        requires
                            -2_147_483_648 <= dy <= 2_147_483_648,
                            0 <= damp <= 1000,
                    ;
                }
                let px: i128 = (dx as i128) * (damp as i128);
                let py: i128 = (dy as i128) * (damp as i128);
                proof {
                    assert(px * rd <= 10_000_000_000_000_000_000_000_000
                        && px * rd >= -10_000_000_000_000_000_000_000_000)
                        by (nonlinear_arith)
                        requires
                            -2_147_483_648_000 <= px <= 2_147_483_648_000,
                            -3_100_000_000 <= rd <= 3_100_000_000,
                    ;
                    assert(py * rd <= 10_000_000_000_000_000_000_000_000
                        && py * rd >= -10_000_000_000_000_000_000_000_000)
                        by (nonlinear_arith)
                        requires
                            -2_147_483_648_000 <= py <= 2_147_483_648_000,
                            -3_100_000_000 <= rd <= 3_100_000_000,
                    ;
                }
                let numx: i128 = px * rd;
                let numy: i128 = py * rd;
                let ox: i128 = div_trunc_i128(numx, den);
                let oy: i128 = div_trunc_i128(numy, den);
                let nax: i64 = clamp_i128(a.x as i128 + ox);
                let nay: i64 = clamp_i128(a.y as i128 + oy);
                let nbx: i64 = clamp_i128(b.x as i128 - ox);
                let nby: i64 = clamp_i128(b.y as i128 - oy);
                let mut na = self.nodes[i];
                na.position = Vec2 { x: nax, y: nay };
                self.nodes.set(i, na);
                let mut nb = self.nodes[i + 1];
                nb.position = Vec2 { x: nbx, y: nby };
                self.nodes.set(i + 1, nb);
                proof {
                    let off = pair_offset(prev[i as int].position, prev[i + 1 as int].position,
                        restg, dampg);
                    assert(ox == off.x);
                    assert(oy == off.y);
                    assert forall|j: int| 0 <= j < self@.len() implies self@[j]
                        == pair_step(prev, i as int, restg, dampg)[j] by {
                        if j == i + 1 {
                            assert(self@[j] == nb@);
                        } else if j == i {
                            assert(self@[j] == na@);
                        } else {
                            assert(self@[j] == prev[j]);
                        }
                    }
                    assert(self@ =~= pair_step(prev, i as int, restg, dampg));
                }
            } else {
                proof {
                    let off = pair_offset(prev[i as int].position, prev[i + 1 as int].position,
                        restg, dampg);
                    assert(off.x == 0 && off.y == 0);
                    assert forall|j: int| 0 <= j < self@.len() implies self@[j]
                        == pair_step(prev, i as int, restg, dampg)[j] by {
                        if j == i {
                            assert(clamp(prev[j].position.x + 0) == prev[j].position.x);
                            assert(clamp(prev[j].position.y + 0) == prev[j].position.y);
                        } else if j == i + 1 {
                            assert(clamp(prev[j].position.x - 0) == prev[j].position.x);
                            assert(clamp(prev[j].position.y - 0) == prev[j].position.y);
                        }
                    }
                    assert(self@ =~= pair_step(prev, i as int, restg, dampg));
                }
            }
            proof {
                assert(pass_prefix(s0, restg, dampg, (i + 1) as nat)
                    == pair_step(pass_prefix(s0, restg, dampg, i as nat), i as int, restg,
                        dampg));
            }
            i += 1;
        }
        proof {
            assert(self@ == pass(s0, restg, dampg));
        }
    }

    /// Pin the first node's position to the (saturated) pointer coordinate.
    /// Its previous position, and every other node, are untouched; an empty
    /// chain stays empty.
    pub fn pin(&mut self, x: i64, y: i64)
        requires
            old(self).wf(),
        ensures
            final(self).wf(),
            final(self).config == old(self).config,
            final(self).nodes_len == old(self).nodes_len,
            final(self)@ == pinned(old(self)@, x as int, y as int),
            old(self).nodes_len > 0 ==> final(self)@[0].position
                == (Vec2V { x: clamp(x as int), y: clamp(y as int) }),
    {
        if self.nodes_len > 0 {
            let mut n = self.nodes[0];
            n.position = Vec2 { x: clamp_i128(x as i128), y: clamp_i128(y as i128) };
            self.nodes.set(0, n);
            proof {
                assert forall|j: int| 0 <= j < self@.len() implies self@[j]
                    == pinned(old(self)@, x as int, y as int)[j] by {
                    if j == 0 {
                        assert(self@[j] == n@);
                    } else {
                        assert(self@[j] == old(self)@[j]);
                    }
                }
                assert(self@ =~= pinned(old(self)@, x as int, y as int));
            }
        }
    }

    /// One constraint iteration: re-pin the anchor to the pointer, relax
    /// every pair once, and pin again. Afterwards the anchor sits exactly on
    /// the (saturated) pointer coordinate.
    pub fn relax(&mut self, x: i64, y: i64)
        requires
            old(self).wf(),
        ensures
            final(self).wf(),
            final(self).config == old(self).config,
            final(self).nodes_len == old(self).nodes_len,
            final(self)@ == relaxed(old(self)@, old(self).config.rest_length as int,
                old(self).config.damping as int, x as int, y as int),
            old(self).nodes_len > 0 ==> final(self)@[0].position
                == (Vec2V { x: clamp(x as int), y: clamp(y as int) }),
    {
        self.pin(x, y);
        self.constraints();
        self.pin(x, y);
    }

    /// One whole frame, as the host drives it: one integration step for
    /// every node, then the configured number of constraint iterations
    /// against the pointer coordinate `(x, y)`.
    pub fn frame(&mut self, x: i64, y: i64)
        requires
            old(self).wf(),
        ensures
            final(self).wf(),
            final(self).config == old(self).config,
            final(self).nodes_len == old(self).nodes_len,
            final(self)@ == framed(old(self)@, old(self).config, x as int, y as int),
            old(self).nodes_len > 0 && old(self).config.iterations > 0
                ==> final(self)@[0].position
                == (Vec2V { x: clamp(x as int), y: clamp(y as int) }),
    {
        self.simulate();
        let ghost sim0 = self@;
        let iters: usize = self.config.iterations;
        let mut k: usize = 0;
        while k < iters
            invariant
                k <= iters,
                self.wf(),
                self.config == old(self).config,
                self.nodes_len == old(self).nodes_len,
                iters == old(self).config.iterations,
                self@ == relaxed_n(sim0, old(self).config.rest_length as int,
                    old(self).config.damping as int, x as int, y as int, k as nat),
                k > 0 && self.nodes_len > 0 ==> self@[0].position
                    == (Vec2V { x: clamp(x as int), y: clamp(y as int) }),
            decreases iters - k,
        {
            self.relax(x, y);
            k += 1;
        }
        proof {
            assert(self@ == framed(old(self)@, old(self).config, x as int, y as int));
        }
    }
}

} // verus!
