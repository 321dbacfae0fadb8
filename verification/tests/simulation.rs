use skyloop::camera::{camera_input, CameraController};
use skyloop::fixed::isqrt_u128;
use skyloop::guns::{contains_marker, spawn_guns, GUN_PERIOD_MAX, GUN_PERIOD_MIN};
use skyloop::landscape::{move_with_landscape, CurrentLandscapeMaterial};
use skyloop::laser::{shoot_guns, update_lasers, LASER_SPEED};
use skyloop::plane::{move_plane, PlaneMovement, PlaneSettings};
use skyloop::registry::{AwaitingSpawnGun, ColorRgb, MoveWithLandscapeTag, Registry};
use skyloop::rng::draw_in_range;
use skyloop::spawn::{random_transform, spawn_objects, SpawnKind, SPAWN_HEIGHT, SPAWN_X_FAR};
use skyloop::spawner::Spawner;
use skyloop::timer::RepeatTimer;
use skyloop::vec3::{TransformFx, Vec3Fx};
use skyloop::LANDSCAPE_SIZE_HALF;

fn v(x: i64, y: i64, z: i64) -> Vec3Fx {
    Vec3Fx { x, y, z }
}

fn tf(pos: Vec3Fx) -> TransformFx {
    TransformFx {
        pos,
        fwd: v(0, 0, 1000),
        yaw_mr: 0,
    }
}

#[test]
fn scroll_moves_by_exactly_speed_times_dt() {
    let mut reg = Registry::new();
    let id = reg.spawn_actor(tf(v(0, 0, 0)), Some(MoveWithLandscapeTag), None);
    // The scroll speed is negative: the landscape flows toward the
    // viewer, so tagged actors drift toward +z.
    let config = CurrentLandscapeMaterial { speed: -80_000 };
    move_with_landscape(&mut reg, &config, 16);
    // z - speed * dt = 0 - (-80_000 * 16) micro-units, exactly.
    assert_eq!(reg.slots[id].transform.pos.z, 1_280_000);
    assert!(reg.slots[id].alive);
}

#[test]
fn scroll_leaves_untagged_entities_alone() {
    let mut reg = Registry::new();
    let id = reg.spawn_actor(tf(v(5, 6, 7)), None, None);
    let config = CurrentLandscapeMaterial { speed: -80_000 };
    move_with_landscape(&mut reg, &config, 1000);
    assert_eq!(reg.slots[id].transform.pos.z, 7);
}

#[test]
fn scroll_culls_entity_past_boundary_and_its_descendants() {
    let mut reg = Registry::new();
    let far = reg.spawn_actor(
        tf(v(0, 0, LANDSCAPE_SIZE_HALF - 1_000_000)),
        Some(MoveWithLandscapeTag),
        None,
    );
    let child = reg.attach_child(far, b"wing".to_vec(), tf(v(0, 0, 0)));
    let near = reg.spawn_actor(tf(v(0, 0, 0)), Some(MoveWithLandscapeTag), None);
    let config = CurrentLandscapeMaterial { speed: -80_000 };
    // 80 units per second for one second: the far actor crosses the
    // boundary, the near one stays well inside.
    move_with_landscape(&mut reg, &config, 1_000);
    assert!(!reg.slots[far].alive);
    assert!(!reg.slots[child].alive);
    assert!(reg.slots[near].alive);
    // No live tagged entity sits at or past the boundary.
    for s in &reg.slots {
        if s.alive && s.scroll_tag.is_some() {
            assert!(s.transform.pos.z < LANDSCAPE_SIZE_HALF);
        }
    }
}

#[test]
fn spawner_covers_ten_intervals_exactly_under_fine_and_coarse_pacing() {
    // dt = 0.1 time units for 100 frames.
    let mut s = Spawner::new();
    let mut count = 0;
    for _ in 0..100 {
        if s.step(100) {
            count += 1;
        }
    }
    assert_eq!(count, 10);
    // dt = 1.0 time units for 10 frames.
    let mut s = Spawner::new();
    let mut count = 0;
    for _ in 0..10 {
        if s.step(1000) {
            count += 1;
        }
    }
    assert_eq!(count, 10);
}

#[test]
fn spawn_objects_places_actors_in_the_far_field_band() {
    let mut reg = Registry::new();
    let mut timer = Spawner::new();
    let r = spawn_objects(&mut reg, &mut timer, 1000);
    let (kind, id) = r.expect("a full interval elapsed, so a spawn is due");
    let slot = &reg.slots[id];
    assert!(slot.alive);
    assert!(slot.scroll_tag.is_some());
    let t = &slot.transform;
    assert_eq!(t.pos.y, SPAWN_HEIGHT);
    assert_eq!(t.pos.z, -LANDSCAPE_SIZE_HALF);
    let clearance = match kind {
        SpawnKind::Enemy => 36_000_000,
        SpawnKind::SmallObstacle => 30_000_000,
        SpawnKind::LargeObstacle => 90_000_000,
    };
    assert!(t.pos.x.abs() >= clearance && t.pos.x.abs() < SPAWN_X_FAR);
    match kind {
        SpawnKind::Enemy => {
            let pending = slot.awaiting_gun.expect("enemies await guns");
            assert_eq!(pending.color, ColorRgb { r: 0, g: 255, b: 0 });
        }
        _ => assert!(slot.awaiting_gun.is_none()),
    }
}

#[test]
fn spawn_objects_without_a_trigger_changes_nothing() {
    let mut reg = Registry::new();
    let mut timer = Spawner::new();
    // Consume the initial trigger; the accumulator then holds 400 ms of
    // credit, so a short frame must not spawn.
    spawn_objects(&mut reg, &mut timer, 600).expect("the fresh spawner is due");
    let before = reg.slots.len();
    assert!(spawn_objects(&mut reg, &mut timer, 100).is_none());
    assert_eq!(reg.slots.len(), before);
}

#[test]
fn marker_matching_finds_the_substring() {
    assert!(contains_marker(&b"left_laser_0".to_vec()));
    assert!(contains_marker(&b"laser".to_vec()));
    assert!(!contains_marker(&b"wing".to_vec()));
    assert!(!contains_marker(&b"lase".to_vec()));
    assert!(!contains_marker(&b"".to_vec()));
}

#[test]
fn pending_gun_without_matching_descendant_is_retained_and_arms_nothing() {
    let mut reg = Registry::new();
    let e = reg.spawn_actor(
        tf(v(0, 0, 0)),
        None,
        Some(AwaitingSpawnGun {
            color: ColorRgb { r: 255, g: 0, b: 0 },
        }),
    );
    let wing = reg.attach_child(e, b"wing".to_vec(), tf(v(1, 0, 0)));
    // Repeated resolution attempts stay idempotent.
    for _ in 0..3 {
        spawn_guns(&mut reg);
        assert!(reg.slots[e].awaiting_gun.is_some());
        assert!(reg.slots[wing].gun.is_none());
        assert!(reg.slots[e].gun.is_none());
    }
}

#[test]
fn pending_gun_arms_every_matching_descendant_and_is_removed() {
    let mut reg = Registry::new();
    let e = reg.spawn_actor(
        tf(v(0, 0, 0)),
        None,
        Some(AwaitingSpawnGun {
            color: ColorRgb { r: 0, g: 255, b: 0 },
        }),
    );
    let wing = reg.attach_child(e, b"wing".to_vec(), tf(v(1, 0, 0)));
    let gun_l = reg.attach_child(wing, b"left_laser".to_vec(), tf(v(2, 0, 0)));
    let gun_r = reg.attach_child(e, b"right_laser".to_vec(), tf(v(3, 0, 0)));
    let other = reg.spawn_actor(tf(v(9, 0, 0)), None, None);
    let stray = reg.attach_child(other, b"laser_of_nobody".to_vec(), tf(v(9, 1, 0)));
    spawn_guns(&mut reg);
    assert!(reg.slots[e].awaiting_gun.is_none());
    for id in [gun_l, gun_r] {
        let gun = reg.slots[id].gun.expect("matching descendants are armed");
        assert_eq!(gun.color, ColorRgb { r: 0, g: 255, b: 0 });
        assert!(gun.timer.period >= GUN_PERIOD_MIN && gun.timer.period < GUN_PERIOD_MAX);
        assert_eq!(gun.timer.elapsed, 0);
    }
    assert!(reg.slots[wing].gun.is_none());
    // A marker under a different, non-pending ancestor is not armed.
    assert!(reg.slots[stray].gun.is_none());
}

#[test]
fn gun_timer_fires_at_floor_of_duration_over_period() {
    // Interval 0.7 under constant dt = 0.1 for a duration of 10 time
    // units: floor(10 / 0.7) firings.
    let mut t = RepeatTimer::new(700);
    let mut fired: i64 = 0;
    for _ in 0..100 {
        fired += t.advance(100);
    }
    assert_eq!(fired, 10_000 / 700);
}

#[test]
fn gun_timer_catches_up_on_a_long_frame() {
    let mut t = RepeatTimer::new(700);
    assert_eq!(t.advance(2_100), 3);
    assert_eq!(t.elapsed, 0);
}

#[test]
fn shooting_spawns_projectiles_along_the_gun_facing() {
    let mut reg = Registry::new();
    let e = reg.spawn_actor(
        tf(v(0, 0, 0)),
        None,
        Some(AwaitingSpawnGun {
            color: ColorRgb { r: 0, g: 255, b: 0 },
        }),
    );
    let muzzle = reg.attach_child(
        e,
        b"laser".to_vec(),
        TransformFx {
            pos: v(1_000_000, 2_000_000, 3_000_000),
            fwd: v(0, 0, 1000),
            yaw_mr: 0,
        },
    );
    spawn_guns(&mut reg);
    let period = reg.slots[muzzle].gun.unwrap().timer.period;
    let before = reg.slots.len();
    // Advance exactly one period: exactly one shot.
    let events = shoot_guns(&mut reg, v(0, 0, 0), period);
    assert_eq!(events.len(), 1);
    assert_eq!(reg.slots.len(), before + 1);
    let ev = &events[0];
    // Velocity is the facing scaled by the launch speed: 70 units per
    // second along +z.
    assert_eq!(ev.velocity, v(0, 0, 70_000));
    assert_eq!(LASER_SPEED, 70_000);
    assert_eq!(ev.pos, v(1_000_000, 2_000_000, 3_000_000));
    assert_eq!(ev.color, ColorRgb { r: 0, g: 255, b: 0 });
    assert!(ev.audio_speed >= 700 && ev.audio_speed < 1400);
    let shot = &reg.slots[before];
    assert!(shot.alive);
    assert_eq!(shot.laser.unwrap().velocity, v(0, 0, 70_000));
    assert_eq!(shot.transform.pos, ev.pos);
}

#[test]
fn shot_volume_attenuates_linearly_with_distance() {
    let mut reg = Registry::new();
    let e = reg.spawn_actor(
        tf(v(0, 0, 0)),
        None,
        Some(AwaitingSpawnGun {
            color: ColorRgb { r: 255, g: 0, b: 0 },
        }),
    );
    let muzzle = reg.attach_child(e, b"laser".to_vec(), tf(v(0, 0, 0)));
    spawn_guns(&mut reg);
    let period = reg.slots[muzzle].gun.unwrap().timer.period;

    // Viewpoint on the gun: full volume.
    let events = shoot_guns(&mut reg, v(0, 0, 0), period);
    assert_eq!(events[0].volume, 1000);
    // Viewpoint 50 units away: half volume.
    let events = shoot_guns(&mut reg, v(50_000_000, 0, 0), period);
    assert_eq!(events[0].volume, 500);
    // Viewpoint 100 units away or more: silent.
    let events = shoot_guns(&mut reg, v(0, 100_000_000, 0), period);
    assert_eq!(events[0].volume, 0);
    let events = shoot_guns(&mut reg, v(0, 0, 300_000_000), period);
    assert_eq!(events[0].volume, 0);
}

#[test]
fn projectile_velocity_compounds_exponentially() {
    let mut reg = Registry::new();
    reg.spawn_laser(tf(v(0, 0, 0)), v(0, 0, 100_000));
    // dt = 0.1 and rate 6 per second: factor 1.6 per tick, exactly
    // representable, so after 3 ticks the speed is 100 * 1.6^3 = 409.6
    // units per second.
    for _ in 0..3 {
        update_lasers(&mut reg, 100);
    }
    let s = &reg.slots[0];
    assert!(s.alive);
    assert_eq!(s.laser.unwrap().velocity, v(0, 0, 409_600));
    // And the position integrated each tick's new velocity times dt:
    // 16 + 25.6 + 40.96 units.
    assert_eq!(s.transform.pos.z, 16_000_000 + 25_600_000 + 40_960_000);
}

#[test]
fn projectile_past_world_boundary_is_destroyed() {
    let mut reg = Registry::new();
    reg.spawn_laser(tf(v(0, 0, LANDSCAPE_SIZE_HALF - 1_000_000)), v(0, 0, 1_000_000));
    let keep = reg.spawn_laser(tf(v(0, 0, 0)), v(0, 0, 1_000));
    update_lasers(&mut reg, 2_000);
    assert!(!reg.slots[0].alive);
    assert!(reg.slots[keep].alive);
}

#[test]
fn craft_standing_on_the_wobbled_target_does_not_drift() {
    let settings = PlaneSettings {
        wobble_speed: 5_000,
        rotation_speed: 700,
        move_interval: 1_300,
        box_area: 6_000_000,
        speed: 1_500,
    };
    let wobble = v(400_000, 900_000, 0);
    let target = v(1_000_000, 2_000_000, 3_000_000);
    let mut t = TransformFx {
        pos: v(
            target.x + wobble.x,
            target.y + wobble.y,
            target.z + wobble.z,
        ),
        fwd: v(0, 0, 1000),
        yaw_mr: 0,
    };
    let mut pm = PlaneMovement {
        target_pos: target,
        timer: 1_000,
    };
    let pos_before = t.pos;
    move_plane(&mut t, &mut pm, &settings, 16, wobble);
    // The blend target is exactly where the craft stands: no motion.
    assert_eq!(t.pos, pos_before);
    // With a fresh wobble the blend tracks the moving target instead of
    // freezing.
    let wobble2 = v(-900_000, 400_000, 0);
    move_plane(&mut t, &mut pm, &settings, 16, wobble2);
    assert_ne!(t.pos, pos_before);
}

#[test]
fn craft_retargets_when_the_countdown_runs_out() {
    let settings = PlaneSettings {
        wobble_speed: 5_000,
        rotation_speed: 700,
        move_interval: 1_300,
        box_area: 6_000_000,
        speed: 1_500,
    };
    let mut t = tf(v(0, 0, -30_000_000));
    let mut pm = PlaneMovement {
        target_pos: v(0, 0, 0),
        timer: 100,
    };
    let retargeted = move_plane(&mut t, &mut pm, &settings, 200, v(0, 0, 0));
    assert!(retargeted);
    assert_eq!(pm.timer, 1_300);
    for c in [pm.target_pos.x, pm.target_pos.y, pm.target_pos.z] {
        assert!(c >= -6_000_000 && c < 6_000_000);
    }
    let not_yet = move_plane(&mut t, &mut pm, &settings, 200, v(0, 0, 0));
    assert!(!not_yet);
}

#[test]
fn camera_zoom_sums_wheel_deltas_independent_of_timing() {
    // Wheel deltas 2.0, -0.5 and 1.0 sum to +2.5 zoom whatever the
    // frame delta or orbit state.
    let wheel = vec![2_000, -500, 1_000];
    let mut cam1 = CameraController {
        yaw_mr: 0,
        pitch_mr: 0,
        zoom: 20_000,
    };
    camera_input(&mut cam1, &wheel, &vec![], false, 16);
    assert_eq!(cam1.zoom, 22_500);
    let mut cam2 = CameraController {
        yaw_mr: 0,
        pitch_mr: 0,
        zoom: 20_000,
    };
    camera_input(&mut cam2, &wheel, &vec![(3_000, -2_000)], true, 1_000);
    assert_eq!(cam2.zoom, 22_500);
    assert_eq!(cam1.zoom, cam2.zoom);
}

#[test]
fn camera_orbit_turns_only_while_the_button_is_held() {
    let motion = vec![(10_000, -4_000)];
    let mut cam = CameraController {
        yaw_mr: 0,
        pitch_mr: 0,
        zoom: 20_000,
    };
    camera_input(&mut cam, &vec![], &motion, false, 1_000);
    assert_eq!((cam.yaw_mr, cam.pitch_mr), (0, 0));
    camera_input(&mut cam, &vec![], &motion, true, 1_000);
    // -delta * dt * 3 / 10000: -(10000 * 1000 * 3) / 10000 = -3000.
    assert_eq!(cam.yaw_mr, -3_000);
    assert_eq!(cam.pitch_mr, 1_200);
}

#[test]
fn random_transform_respects_the_clearance_band() {
    for _ in 0..50 {
        let t = random_transform(36_000_000);
        assert!(t.pos.x.abs() >= 36_000_000 && t.pos.x.abs() < SPAWN_X_FAR);
        assert_eq!(t.pos.y, SPAWN_HEIGHT);
        assert_eq!(t.pos.z, -LANDSCAPE_SIZE_HALF);
        assert!(t.yaw_mr >= 0 && t.yaw_mr < 6_283);
    }
}

#[test]
fn integer_square_root_rounds_down() {
    assert_eq!(isqrt_u128(0), 0);
    assert_eq!(isqrt_u128(1), 1);
    assert_eq!(isqrt_u128(10), 3);
    assert_eq!(isqrt_u128(144), 12);
    assert_eq!(isqrt_u128(10_000_000_000_000_000), 100_000_000);
}

#[test]
fn uniform_draw_stays_in_its_range() {
    // A one-value range pins the draw down completely.
    assert_eq!(draw_in_range(5, 6), 5);
    for _ in 0..100 {
        let x = draw_in_range(-3, 4);
        assert!((-3..4).contains(&x));
    }
}
