use blobs::FP_ONE;
use blobs::lamp::{Blob, LavaLamp, LavaLampConfig};
use blobs::shape::Shape;

fn fp(units: i64) -> i64 {
    units * FP_ONE
}

#[test]
fn certain_spawning_adds_one_blob_per_step() {
    // Degenerate ranges: every draw is forced, so each step is exact.
    let config = LavaLampConfig {
        spawn_chance: FP_ONE as u64,
        speed_min: 512,
        speed_max: 512,
        size_min: 2048,
        size_max: 2048,
    };
    let mut lamp = LavaLamp::new(config);
    let steps = 10;
    for _ in 0..steps {
        lamp.step(0, 5, 512, 2048, fp(100), fp(50));
        // Far from the exit edge, nothing is collected.
    }
    assert_eq!(lamp.blobs.len(), steps);
    // Every spawn is anchored at height + size_max with radius size / 2.
    for blob in &lamp.blobs {
        assert_eq!(blob.pos.0, 5);
        assert_eq!(blob.vel, (0, -512));
        assert_eq!(blob.radius, 1024);
    }
    assert_eq!(lamp.blobs[9].pos.1, fp(50) + 2048);
    // The first spawn has advanced nine times since.
    assert_eq!(lamp.blobs[0].pos.1, fp(50) + 2048 - 9 * 512);
}

#[test]
fn blob_past_the_threshold_is_collected_without_spawning() {
    let config = LavaLampConfig {
        spawn_chance: 0,
        speed_min: 0,
        speed_max: 512,
        size_min: 1024,
        size_max: 2048,
    };
    let mut lamp = LavaLamp::new(config);
    // Already exactly on the garbage threshold y <= -size_max.
    lamp.seed_blob(Blob::new((fp(3), -2048), (0, 0), 512));
    assert_eq!(lamp.blobs.len(), 1);
    lamp.step(1023, 0, 0, 1024, fp(100), fp(50));
    assert_eq!(lamp.blobs.len(), 0);
}

#[test]
fn garbage_collection_keeps_survivors_in_order() {
    let config = LavaLampConfig {
        spawn_chance: 0,
        speed_min: 0,
        speed_max: 0,
        size_min: 0,
        size_max: 1024,
    };
    let mut lamp = LavaLamp::new(config);
    lamp.seed_blob(Blob::new((1, fp(10)), (0, 0), 100));
    lamp.seed_blob(Blob::new((2, -fp(2)), (0, 0), 100)); // garbage
    lamp.seed_blob(Blob::new((3, fp(20)), (0, 0), 100));
    lamp.seed_blob(Blob::new((4, -fp(3)), (0, 0), 100)); // garbage
    lamp.seed_blob(Blob::new((5, fp(30)), (0, 0), 100));
    lamp.step(1023, 0, 0, 0, fp(100), fp(50));
    let xs: Vec<i64> = lamp.blobs.iter().map(|b| b.pos.0).collect();
    assert_eq!(xs, vec![1, 3, 5]);
}

#[test]
fn emit_interpolates_by_the_sub_step_fraction() {
    let blob = Blob::new((1000, 5000), (0, -512), 300);
    let mut shape = Shape::new();
    // Fraction one half: the display position is p + v / 2.
    blob.add_to_shape(&mut shape, FP_ONE / 2);
    assert_eq!(shape.vertices.len(), 6);
    assert_eq!(shape.vertices[0].pos, (1000 - 300, 5000 - 256 - 300));
    assert_eq!(shape.vertices[4].pos, (1000 + 300, 5000 - 256 + 300));
}

#[test]
fn emit_with_zero_fraction_reproduces_the_simulated_position() {
    let blob = Blob::new((1000, 5000), (0, -512), 300);
    let mut shape = Shape::new();
    blob.add_to_shape(&mut shape, 0);
    assert_eq!(shape.vertices[0].pos, (700, 4700));
    assert_eq!(shape.vertices[4].pos, (1300, 5300));
}

#[test]
fn blob_update_advances_position_by_velocity() {
    let mut blob = Blob::new((fp(100), fp(500)), (0, -fp(2)), fp(10));
    blob.update();
    assert_eq!(blob.pos, (fp(100), fp(498)));
    assert_eq!(blob.vel, (0, -fp(2)));
}

#[test]
fn end_to_end_scenario_rise_and_retire() {
    // One pre-seeded blob at (100, 500) rising at 2 units per step on a
    // 600-unit-high surface; the exit threshold is -size_max = -128.
    let config = LavaLampConfig {
        spawn_chance: 0,
        speed_min: fp(2),
        speed_max: fp(2),
        size_min: fp(20),
        size_max: fp(128),
    };
    let mut lamp = LavaLamp::new(config);
    lamp.seed_blob(Blob::new((fp(100), fp(500)), (0, -fp(2)), fp(10)));

    for _ in 0..40 {
        lamp.step(1023, 0, fp(2) as u64, fp(20) as u64, fp(800), fp(600));
    }
    assert_eq!(lamp.blobs.len(), 1);
    assert_eq!(lamp.blobs[0].pos, (fp(100), fp(420)));

    // y reaches -128 exactly at step 314 and the blob is collected.
    for _ in 40..313 {
        lamp.step(1023, 0, fp(2) as u64, fp(20) as u64, fp(800), fp(600));
    }
    assert_eq!(lamp.blobs.len(), 1);
    assert_eq!(lamp.blobs[0].pos.1, -fp(126));

    lamp.step(1023, 0, fp(2) as u64, fp(20) as u64, fp(800), fp(600));
    assert_eq!(lamp.blobs.len(), 0);

    // The emitted geometry for that frame is empty.
    let mut shape = Shape::new();
    lamp.add_to_shape(&mut shape, 0);
    assert!(shape.vertices.is_empty());
}

#[test]
fn update_draws_its_randomness_within_the_configured_ranges() {
    let config = LavaLampConfig {
        spawn_chance: FP_ONE as u64,
        speed_min: 512,
        speed_max: 1024,
        size_min: 2048,
        size_max: 4096,
    };
    let mut lamp = LavaLamp::new(config);
    lamp.update(fp(100), fp(50));
    assert_eq!(lamp.blobs.len(), 1);
    let blob = lamp.blobs[0];
    assert!(0 <= blob.pos.0 && blob.pos.0 < fp(100));
    assert_eq!(blob.pos.1, fp(50) + 4096);
    assert_eq!(blob.vel.0, 0);
    assert!(-1024 <= blob.vel.1 && blob.vel.1 <= -512);
    assert!(1024 <= blob.radius && blob.radius <= 2048);
}

#[test]
fn update_with_zero_chance_never_spawns() {
    let config = LavaLampConfig {
        spawn_chance: 0,
        speed_min: 0,
        speed_max: 0,
        size_min: 0,
        size_max: 0,
    };
    let mut lamp = LavaLamp::new(config);
    for _ in 0..50 {
        lamp.update(fp(100), fp(50));
    }
    assert_eq!(lamp.blobs.len(), 0);
}
