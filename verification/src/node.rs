//! A single point mass: current and previous position, advanced one Verlet
//! integration step at a time.

use vstd::prelude::*;

verus! {

use crate::fixed::{clamp, clamp_i128, POS_LIMIT};

/// A 2-D coordinate in fixed-point units (see `fixed::SCALE`).
#[derive(Clone, Copy)]
pub struct Vec2 {
    pub x: i64,
    pub y: i64,
}

/// Mathematical image of a `Vec2`, over unbounded integers.
pub ghost struct Vec2V {
    pub x: int,
    pub y: int,
}

impl View for Vec2 {
    type V = Vec2V;

    open spec fn view(&self) -> Vec2V {
        Vec2V { x: self.x as int, y: self.y as int }
    }
}

/// A point mass. The implicit velocity is `position - old_position`.
#[derive(Clone, Copy)]
pub struct Node {
    pub position: Vec2,
    pub old_position: Vec2,
}

/// Mathematical image of a `Node`.
pub ghost struct NodeV {
    pub position: Vec2V,
    pub old_position: Vec2V,
}

impl View for Node {
    type V = NodeV;

    open spec fn view(&self) -> NodeV {
        NodeV { position: self.position@, old_position: self.old_position@ }
    }
}

/// The coordinate lies in the range the simulation keeps all state in.
pub open spec fn vec_in_bounds(v: Vec2V) -> bool {
    &&& -(POS_LIMIT as int) <= v.x <= POS_LIMIT as int
    &&& -(POS_LIMIT as int) <= v.y <= POS_LIMIT as int
}

pub open spec fn node_in_bounds(n: NodeV) -> bool {
    vec_in_bounds(n.position) && vec_in_bounds(n.old_position)
}

/// One Verlet step: the new position is the current one plus the implicit
/// velocity plus the acceleration term, saturated to the coordinate range;
/// the current position becomes the previous one.
pub open spec fn stepped(n: NodeV, ax: int, ay: int) -> NodeV {
    NodeV {
        position: Vec2V {
            x: clamp(n.position.x + (n.position.x - n.old_position.x) + ax),
            y: clamp(n.position.y + (n.position.y - n.old_position.y) + ay),
        },
        old_position: n.position,
    }
}

impl Node {
    /// A node at rest at `(x, y)`: both positions equal, zero implicit
    /// velocity.
    pub fn new(x: i64, y: i64) -> (n: Node)
        ensures
            n@ == (NodeV {
                position: Vec2V { x: x as int, y: y as int },
                old_position: Vec2V { x: x as int, y: y as int },
            }),
    {
        Node { position: Vec2 { x, y }, old_position: Vec2 { x, y } }
    }

    /// Advance one integration step under the given per-step acceleration
    /// term (`accel` is gravity times the squared timestep).
    pub fn step(&mut self, accel: Vec2)
        ensures
            final(self)@ == stepped(old(self)@, accel@.x, accel@.y),
            node_in_bounds(final(self)@) <==> vec_in_bounds(old(self)@.position),
    {
        let temp = self.position;
        let nx: i128 = self.position.x as i128
            + (self.position.x as i128 - self.old_position.x as i128) + accel.x as i128;
        let ny: i128 = self.position.y as i128
            + (self.position.y as i128 - self.old_position.y as i128) + accel.y as i128;
        self.position = Vec2 { x: clamp_i128(nx), y: clamp_i128(ny) };
        self.old_position = temp;
    }
}

} // verus!
