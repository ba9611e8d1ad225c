//! Behavioural tests of the simulation kernel, on concrete values.

use verlet_rope::fixed::{clamp_i128, isqrt_u64, POS_LIMIT};
use verlet_rope::node::{Node, Vec2};
use verlet_rope::rope::{accel_step, Config, Rope};

/// One pixel in fixed-point units.
const PX: i64 = 1_000_000;

fn default_rope_of(nodes: Vec<Node>) -> Rope {
    let nodes_len = nodes.len();
    Rope { nodes, nodes_len, config: Config::default() }
}

/// Maximum deviation of the adjacent distances from the rest length, in
/// fixed-point units, measured in floating point.
fn max_distance_error(rope: &Rope) -> f64 {
    let rest = rope.config.rest_length as f64;
    let mut worst: f64 = 0.0;
    for i in 0..rope.nodes_len - 1 {
        let a = rope.nodes[i].position;
        let b = rope.nodes[i + 1].position;
        let dx = (a.x - b.x) as f64;
        let dy = (a.y - b.y) as f64;
        let err = ((dx * dx + dy * dy).sqrt() - rest).abs();
        if err > worst {
            worst = err;
        }
    }
    worst
}

#[test]
fn node_starts_at_rest() {
    let n = Node::new(3, 4);
    assert_eq!(n.position.x, 3);
    assert_eq!(n.position.y, 4);
    assert_eq!(n.old_position.x, 3);
    assert_eq!(n.old_position.y, 4);
}

#[test]
fn integration_at_rest_moves_by_acceleration() {
    // A particle with zero implicit velocity gains exactly the acceleration
    // term in one step, and previous_position records the pre-step position.
    let mut n = Node::new(7, 9);
    n.step(Vec2 { x: 0, y: 2733 });
    assert_eq!(n.position.x, 7);
    assert_eq!(n.position.y, 9 + 2733);
    assert_eq!(n.old_position.x, 7);
    assert_eq!(n.old_position.y, 9);
}

#[test]
fn integration_keeps_velocity() {
    let mut n = Node::new(0, 0);
    n.step(Vec2 { x: 0, y: 2733 });
    n.step(Vec2 { x: 0, y: 2733 });
    // Second step: velocity 2733 plus another acceleration term.
    assert_eq!(n.position.y, 2733 + 2733 + 2733);
    assert_eq!(n.old_position.y, 2733);
}

#[test]
fn default_acceleration_term() {
    // 9.8 px/s^2 at dt = 0.0167 s: 9.8e6 * 16700^2 / 1e12 = 2733.122...,
    // truncated to 2733 units.
    assert_eq!(accel_step(9_800_000, 16_700), 2733);
}

#[test]
fn simulate_applies_gravity_to_every_node() {
    let mut rope = Rope::new(2, 0, 0);
    rope.simulate();
    assert_eq!(rope.nodes[0].position.y, 2733);
    assert_eq!(rope.nodes[1].position.y, 10 * PX + 2733);
    assert_eq!(rope.nodes[0].old_position.y, 0);
    assert_eq!(rope.nodes[1].old_position.y, 10 * PX);
}

#[test]
fn chain_hangs_below_anchor() {
    let rope = Rope::new(3, 0, 0);
    assert_eq!(rope.nodes_len, 3);
    for i in 0..3 {
        assert_eq!(rope.nodes[i].position.x, 0);
        assert_eq!(rope.nodes[i].position.y, i as i64 * 10 * PX);
        assert_eq!(rope.nodes[i].old_position.x, 0);
        assert_eq!(rope.nodes[i].old_position.y, i as i64 * 10 * PX);
    }
}

#[test]
fn custom_rest_length_sets_spacing() {
    let config = Config { rest_length: 5 * PX, ..Config::default() };
    let rope = Rope::with_config(3, 2 * PX, 0, config);
    assert_eq!(rope.nodes[0].position.y, 0);
    assert_eq!(rope.nodes[1].position.y, 5 * PX);
    assert_eq!(rope.nodes[2].position.y, 10 * PX);
    assert_eq!(rope.nodes[2].position.x, 2 * PX);
}

#[test]
fn rest_chain_is_a_fixed_point_of_constraints() {
    // Chain(count=3, anchor=(0,0)): nodes at (0,0), (0,10), (0,20) pixels.
    // Every adjacent distance already equals the rest length, so one
    // unpinned relaxation pass with no gravity leaves the chain unchanged:
    // the corrections at the shared middle particle cancel exactly.
    let mut rope = Rope::new(3, 0, 0);
    rope.constraints();
    for i in 0..3 {
        assert_eq!(rope.nodes[i].position.x, 0);
        assert_eq!(rope.nodes[i].position.y, i as i64 * 10 * PX);
    }
}

#[test]
fn coincident_nodes_are_safe_and_unmoved() {
    // Two adjacent particles at identical coordinates: the division guard
    // makes the correction zero; nothing moves and every value stays a
    // plain in-range integer.
    let mut rope = default_rope_of(vec![Node::new(3 * PX, 4 * PX), Node::new(3 * PX, 4 * PX)]);
    rope.constraints();
    assert_eq!(rope.nodes[0].position.x, 3 * PX);
    assert_eq!(rope.nodes[0].position.y, 4 * PX);
    assert_eq!(rope.nodes[1].position.x, 3 * PX);
    assert_eq!(rope.nodes[1].position.y, 4 * PX);
}

#[test]
fn stretched_pair_contracts_by_damped_correction() {
    // Distance 20 px against a rest length of 10 px: the correction factor
    // is (10 - 20) / 20 = -0.5, damped by 0.1, so each node moves 1 px
    // toward the other.
    let mut rope = default_rope_of(vec![Node::new(0, 0), Node::new(0, 20 * PX)]);
    rope.constraints();
    assert_eq!(rope.nodes[0].position.y, PX);
    assert_eq!(rope.nodes[1].position.y, 19 * PX);
    assert_eq!(rope.nodes[0].position.x, 0);
    assert_eq!(rope.nodes[1].position.x, 0);
}

#[test]
fn repeated_passes_converge_toward_rest_length() {
    // A chain stretched to twice the rest length between every pair: the
    // distance error after 50 passes is strictly smaller than after 1, and
    // does not grow as the iteration count rises.
    let stretched = || {
        default_rope_of((0..5).map(|i| Node::new(0, i as i64 * 20 * PX)).collect())
    };
    let err_after = |passes: usize| {
        let mut rope = stretched();
        for _ in 0..passes {
            rope.constraints();
        }
        max_distance_error(&rope)
    };
    let e1 = err_after(1);
    let e5 = err_after(5);
    let e20 = err_after(20);
    let e50 = err_after(50);
    assert!(e50 < e1);
    assert!(e5 <= e1);
    assert!(e20 <= e5);
    assert!(e50 <= e20);
}

#[test]
fn single_node_constraints_is_a_no_op() {
    let mut rope = Rope::new(1, 5, 6);
    rope.constraints();
    assert_eq!(rope.nodes_len, 1);
    assert_eq!(rope.nodes[0].position.x, 5);
    assert_eq!(rope.nodes[0].position.y, 6);
}

#[test]
fn empty_chain_never_panics() {
    let mut rope = Rope::new(0, 1, 2);
    assert_eq!(rope.nodes_len, 0);
    rope.simulate();
    rope.constraints();
    rope.pin(3, 4);
    rope.relax(3, 4);
    rope.frame(3, 4);
    assert_eq!(rope.nodes_len, 0);
    assert_eq!(rope.nodes.len(), 0);
}

#[test]
fn anchor_sits_on_pointer_after_each_iteration() {
    let mut rope = Rope::new(10, 0, 0);
    rope.relax(123_456, 789_000);
    assert_eq!(rope.nodes[0].position.x, 123_456);
    assert_eq!(rope.nodes[0].position.y, 789_000);
    rope.relax(-5 * PX, 2 * PX);
    assert_eq!(rope.nodes[0].position.x, -5 * PX);
    assert_eq!(rope.nodes[0].position.y, 2 * PX);
}

#[test]
fn anchor_sits_on_pointer_after_a_frame() {
    let mut rope = Rope::new(10, 400 * PX, 300 * PX);
    rope.frame(123 * PX, 45 * PX);
    assert_eq!(rope.nodes[0].position.x, 123 * PX);
    assert_eq!(rope.nodes[0].position.y, 45 * PX);
}

#[test]
fn pin_moves_only_the_first_node() {
    let mut rope = Rope::new(3, 0, 0);
    rope.pin(7 * PX, 8 * PX);
    assert_eq!(rope.nodes[0].position.x, 7 * PX);
    assert_eq!(rope.nodes[0].position.y, 8 * PX);
    // The anchor keeps its previous position; the others are untouched.
    assert_eq!(rope.nodes[0].old_position.y, 0);
    assert_eq!(rope.nodes[1].position.y, 10 * PX);
    assert_eq!(rope.nodes[2].position.y, 20 * PX);
}

#[test]
fn identical_runs_give_identical_positions() {
    let pointers = [(100_000, 200_000), (5 * PX, 6 * PX), (-PX, 0)];
    let mut r1 = Rope::new(10, 400 * PX, 300 * PX);
    let mut r2 = Rope::new(10, 400 * PX, 300 * PX);
    for &(px, py) in pointers.iter() {
        r1.frame(px, py);
        r2.frame(px, py);
    }
    for i in 0..10 {
        assert_eq!(r1.nodes[i].position.x, r2.nodes[i].position.x);
        assert_eq!(r1.nodes[i].position.y, r2.nodes[i].position.y);
        assert_eq!(r1.nodes[i].old_position.x, r2.nodes[i].old_position.x);
        assert_eq!(r1.nodes[i].old_position.y, r2.nodes[i].old_position.y);
    }
}

#[test]
fn coordinates_saturate_at_the_limit() {
    // The integrator saturates instead of overflowing.
    let mut n = Node::new(POS_LIMIT, 0);
    n.step(Vec2 { x: 1000, y: 0 });
    assert_eq!(n.position.x, POS_LIMIT);
    // Pinning saturates too.
    let mut rope = Rope::new(1, 0, 0);
    rope.pin(i64::MAX, i64::MIN);
    assert_eq!(rope.nodes[0].position.x, POS_LIMIT);
    assert_eq!(rope.nodes[0].position.y, -POS_LIMIT);
}

#[test]
fn clamp_saturates_wide_values() {
    assert_eq!(clamp_i128(0), 0);
    assert_eq!(clamp_i128(42), 42);
    assert_eq!(clamp_i128(-42), -42);
    assert_eq!(clamp_i128(i128::MAX), POS_LIMIT);
    assert_eq!(clamp_i128(i128::MIN), -POS_LIMIT);
    assert_eq!(clamp_i128(POS_LIMIT as i128 + 1), POS_LIMIT);
}

#[test]
fn integer_square_root_rounds_down() {
    assert_eq!(isqrt_u64(0), 0);
    assert_eq!(isqrt_u64(1), 1);
    assert_eq!(isqrt_u64(3), 1);
    assert_eq!(isqrt_u64(4), 2);
    assert_eq!(isqrt_u64(99), 9);
    assert_eq!(isqrt_u64(100), 10);
    assert_eq!(isqrt_u64(100_000_000_000_000), 10_000_000);
    assert_eq!(isqrt_u64(u64::MAX), 4_294_967_295);
}
