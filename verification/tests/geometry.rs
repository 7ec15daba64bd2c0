use fps_server_core::geom::{ray_hits_player, Vec3Fx};

fn v(x: i32, y: i32, z: i32) -> Vec3Fx {
    Vec3Fx { x, y, z }
}

#[test]
fn shot_through_the_target_hits() {
    assert!(ray_hits_player(v(0, 0, 0), v(0, 0, -500), v(0, 0, 0)));
}

#[test]
fn shot_well_off_axis_misses() {
    assert!(!ray_hits_player(v(300, 0, 0), v(0, 0, -500), v(0, 0, 0)));
}

#[test]
fn collision_radius_is_one_world_unit() {
    // The perpendicular distance decides: 0.99 units grazes, 1.01 misses.
    assert!(ray_hits_player(v(99, 0, 0), v(0, 0, -500), v(0, 0, 0)));
    assert!(!ray_hits_player(v(101, 0, 0), v(0, 0, -500), v(0, 0, 0)));
}

#[test]
fn aim_sample_only_sets_the_direction() {
    // The target sits far beyond the aim sample; the ray extends to it.
    assert!(ray_hits_player(v(0, 0, 5000), v(0, 0, -500), v(0, 0, 0)));
}

#[test]
fn shots_stop_at_the_maximum_range() {
    // The segment runs 100 world units from the origin; a target half a
    // unit past its end is still inside the radius, 2 units past is not.
    assert!(ray_hits_player(v(0, 0, 10050), v(0, 0, 0), v(0, 0, 100)));
    assert!(!ray_hits_player(v(0, 0, 10200), v(0, 0, 0), v(0, 0, 100)));
}

#[test]
fn target_behind_the_shooter_misses() {
    assert!(!ray_hits_player(v(0, 0, -1000), v(0, 0, 0), v(0, 0, 100)));
}

#[test]
fn degenerate_aim_never_hits() {
    // Shooting with the aim sample at the ray origin defines no direction.
    assert!(!ray_hits_player(v(0, 0, 0), v(10, 0, 0), v(10, 0, 0)));
}

#[test]
fn point_blank_hits() {
    // A target within the radius of the ray origin is hit even when the
    // shot points away from it.
    assert!(ray_hits_player(v(50, 0, 0), v(0, 0, 0), v(0, 0, 100)));
}
