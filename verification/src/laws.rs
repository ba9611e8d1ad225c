//! Properties of the simulation that relate several operations, stated over
//! the same spec functions that the methods' contracts use.

use vstd::prelude::*;

verus! {

use crate::fixed::{clamp, lemma_sqrt_floor, POS_LIMIT};
use crate::node::{Vec2V, NodeV, stepped, node_in_bounds};
use crate::rope::{
    Config, pair_dist, pair_offset, pair_step, pass_prefix, pass, pinned, relaxed, framed,
};

/// A frame is a pure function of the chain state, the configuration and the
/// pointer coordinate: identical inputs always produce identical particle
/// positions, run after run.
pub proof fn lemma_frame_deterministic(
    s1: Seq<NodeV>,
    s2: Seq<NodeV>,
    c1: Config,
    c2: Config,
    px: int,
    py: int,
)
    requires
        s1 == s2,
        c1 == c2,
    ensures
        framed(s1, c1, px, py) == framed(s2, c2, px, py),
{
}

/// A particle at rest (no implicit velocity) moves by exactly the
/// acceleration term in one integration step, and its previous position
/// records where it stood before the step.
pub proof fn lemma_rest_integration(n: NodeV, ax: int, ay: int)
    requires
        n.position == n.old_position,
        -(POS_LIMIT as int) <= n.position.x + ax <= POS_LIMIT as int,
        -(POS_LIMIT as int) <= n.position.y + ay <= POS_LIMIT as int,
    ensures
        stepped(n, ax, ay).position.x == n.position.x + ax,
        stepped(n, ax, ay).position.y == n.position.y + ay,
        stepped(n, ax, ay).old_position == n.position,
{
}

/// Two adjacent particles at identical coordinates receive no correction:
/// the guarded divisor makes the offset zero, so a relaxation of that pair
/// leaves the whole chain unchanged (and in particular produces no
/// out-of-range value).
pub proof fn lemma_coincident_pair_untouched(s: Seq<NodeV>, i: int, rest: int, damp: int)
    requires
        0 <= i,
        i + 1 < s.len(),
        s[i].position == s[i + 1].position,
        node_in_bounds(s[i]),
        node_in_bounds(s[i + 1]),
    ensures
        pair_step(s, i, rest, damp) == s,
{
    assert(pair_dist(s[i].position, s[i + 1].position) == 0) by {
        lemma_sqrt_floor(0, 0);
    }
    let off = pair_offset(s[i].position, s[i + 1].position, rest, damp);
    assert(off.x == 0 && off.y == 0);
    assert forall|j: int| 0 <= j < s.len() implies pair_step(s, i, rest, damp)[j] == s[j] by {
        if j == i || j == i + 1 {
            assert(clamp(s[j].position.x) == s[j].position.x);
            assert(clamp(s[j].position.y) == s[j].position.y);
        }
    }
    assert(pair_step(s, i, rest, damp) =~= s);
}

/// A relaxation pass never adds or removes particles.
pub proof fn lemma_pass_prefix_len(s: Seq<NodeV>, rest: int, damp: int, k: nat)
    requires
        k < s.len(),
    ensures
        pass_prefix(s, rest, damp, k).len() == s.len(),
    decreases k,
{
    if k > 0 {
        lemma_pass_prefix_len(s, rest, damp, (k - 1) as nat);
        let t = pass_prefix(s, rest, damp, (k - 1) as nat);
        assert(pass_prefix(s, rest, damp, k) == pair_step(t, k - 1 as int, rest, damp));
        assert(pair_step(t, k - 1 as int, rest, damp).len() == t.len());
    }
}

/// After a constraint iteration the anchor sits exactly on the (saturated)
/// pointer coordinate, however the relaxation pass moved it in between.
pub proof fn lemma_anchor_pinned(s: Seq<NodeV>, rest: int, damp: int, px: int, py: int)
    requires
        s.len() > 0,
    ensures
        relaxed(s, rest, damp, px, py).len() == s.len(),
        relaxed(s, rest, damp, px, py)[0].position
            == (Vec2V { x: clamp(px), y: clamp(py) }),
{
    let p1 = pinned(s, px, py);
    if p1.len() > 0 {
        lemma_pass_prefix_len(p1, rest, damp, (p1.len() - 1) as nat);
    }
}

/// A relaxation pass over a chain of at most one particle is a no-op: there
/// is no pair to relax.
pub proof fn lemma_short_chain_pass_noop(s: Seq<NodeV>, rest: int, damp: int)
    requires
        s.len() <= 1,
    ensures
        pass(s, rest, damp) == s,
{
}

} // verus!
