use planet_sketch::common::Vec2i;
use planet_sketch::noise::Noise;
use planet_sketch::planet::Planet;
use planet_sketch::world::NOISE_SIZE;

fn zero_noise() -> Noise {
    let side = NOISE_SIZE as usize;
    Noise::new(vec![0u8; side * side])
}

fn patterned_noise() -> Noise {
    let side = NOISE_SIZE as usize;
    let mut samples = Vec::with_capacity(side * side);
    for y in 0..side {
        for x in 0..side {
            samples.push(((x + 3 * y) % 256) as u8);
        }
    }
    Noise::new(samples)
}

#[test]
fn noise_reads_back_its_grid() {
    let noise = patterned_noise();
    assert_eq!(noise.get_point(0, 0), 0);
    assert_eq!(noise.get_point(5, 0), 5);
    assert_eq!(noise.get_point(0, 2), 6);
    assert_eq!(noise.get_point(250, 2), 0);
}

#[test]
fn flat_planet_containment_is_distance_check() {
    let noise = zero_noise();
    let planet = Planet::new(Vec2i { x: 0, y: 0 }, 1500, &noise, 721);
    assert!(Planet::is_inside_expensive(&planet, Vec2i { x: 0, y: 0 }));
    assert!(!Planet::is_inside_expensive(&planet, Vec2i { x: 0, y: 2000 }));
    // The boundary itself is outside: the comparison is strict.
    assert!(!Planet::is_inside_expensive(&planet, Vec2i { x: 0, y: 1500 }));
    assert!(!Planet::is_inside_expensive(&planet, Vec2i { x: 1500, y: 0 }));
    assert!(Planet::is_inside_expensive(&planet, Vec2i { x: 0, y: 1499 }));
    assert!(Planet::is_inside_expensive(&planet, Vec2i { x: -1060, y: -1060 }));
}

#[test]
fn flat_planet_indexed_containment() {
    let noise = zero_noise();
    let planet = Planet::new(Vec2i { x: 0, y: 0 }, 1500, &noise, 721);
    let turn = 721 * 1024u64;
    assert!(Planet::is_inside(&planet, 0, 0));
    assert!(Planet::is_inside(&planet, 1499, 0));
    assert!(!Planet::is_inside(&planet, 1500, 0));
    for angle in [1u64, 511, 1024, 123_456, turn - 1] {
        assert!(Planet::is_inside(&planet, 1499, angle));
        assert!(!Planet::is_inside(&planet, 1500, angle));
    }
}

#[test]
fn flat_planet_geometry() {
    let noise = zero_noise();
    let planet = Planet::new(Vec2i { x: 0, y: 0 }, 1500, &noise, 721);
    assert_eq!(planet.surface.len(), 721);
    assert_eq!(planet.heights.len(), 721);
    assert_eq!(planet.max_radius, 1500);
    for h in &planet.heights {
        assert_eq!(*h, 1500);
    }
    // The first sample sits straight up from the center.
    assert_eq!(planet.surface[0], Vec2i { x: 0, y: 1500 });
}

#[test]
fn perturbed_heights_stay_within_half_radius() {
    let noise = patterned_noise();
    let planet = Planet::new(Vec2i { x: 10, y: -20 }, 1500, &noise, 721);
    for h in &planet.heights {
        assert!(1500 <= *h && *h <= 1500 + 750);
    }
    assert!(planet.heights.iter().all(|h| *h <= planet.max_radius));
    assert!(planet.heights.iter().any(|h| *h == planet.max_radius));
}

#[test]
fn regeneration_keeps_the_model_well_formed() {
    let noise = patterned_noise();
    for _ in 0..5 {
        let planet = Planet::new(Vec2i { x: 0, y: 0 }, 800, &noise, 500);
        assert_eq!(planet.heights.len(), 500);
        for h in &planet.heights {
            assert!(800 <= *h && *h <= 1200);
        }
    }
}

#[test]
fn constant_noise_gives_exact_heights() {
    // On a constant grid the height formula is independent of the random
    // offset: a full-scale sample adds exactly half the radius, and a
    // 51-valued sample exactly a tenth of it.
    let side = NOISE_SIZE as usize;
    let full = Noise::new(vec![255u8; side * side]);
    let planet = Planet::new(Vec2i { x: 0, y: 0 }, 1500, &full, 721);
    assert!(planet.heights.iter().all(|h| *h == 2250));
    assert_eq!(planet.max_radius, 2250);
    let tenth = Noise::new(vec![51u8; side * side]);
    let other = Planet::new(Vec2i { x: 0, y: 0 }, 1500, &tenth, 721);
    assert!(other.heights.iter().all(|h| *h == 1650));
}

#[test]
fn two_sample_surface_still_brackets() {
    // With only two samples, a query angle landing exactly on a sample
    // leaves no sample on the clockwise side; the query falls back to
    // the nearest sample.
    let noise = zero_noise();
    let planet = Planet::new(Vec2i { x: 0, y: 0 }, 100, &noise, 2);
    assert!(Planet::is_inside_expensive(&planet, Vec2i { x: 0, y: 50 }));
    assert!(!Planet::is_inside_expensive(&planet, Vec2i { x: 0, y: 150 }));
    assert!(Planet::is_inside_expensive(&planet, Vec2i { x: 0, y: -50 }));
    // Between the two samples both brackets exist.
    assert!(Planet::is_inside_expensive(&planet, Vec2i { x: 50, y: 0 }));
    assert!(!Planet::is_inside_expensive(&planet, Vec2i { x: 150, y: 0 }));
}

#[test]
fn unit_radius_planet() {
    let noise = zero_noise();
    let planet = Planet::new(Vec2i { x: 0, y: 0 }, 1, &noise, 4);
    assert!(Planet::is_inside(&planet, 0, 0));
    assert!(!Planet::is_inside(&planet, 1, 0));
    assert!(Planet::is_inside_expensive(&planet, Vec2i { x: 0, y: 0 }));
    assert!(!Planet::is_inside_expensive(&planet, Vec2i { x: 1, y: 0 }));
}

#[test]
fn rasterization_is_deterministic() {
    let noise = patterned_noise();
    let planet = Planet::new(Vec2i { x: 0, y: 0 }, 60, &noise, 16);
    let first = Planet::as_image(&planet);
    let second = Planet::as_image(&planet);
    assert_eq!(first.width, second.width);
    assert_eq!(first.height, second.height);
    assert_eq!(first.bytes, second.bytes);
    assert_eq!(first.bytes.len(), 4 * usize::from(first.width) * usize::from(first.height));
}

#[test]
fn rasterization_core_and_atmosphere_colors() {
    let noise = zero_noise();
    let planet = Planet::new(Vec2i { x: 0, y: 0 }, 100, &noise, 16);
    let image = Planet::as_image(&planet);
    let w = i64::from(image.width);
    // The pixel at the world origin is deep inside the core.
    let cx = (0 - planet.extents.x) as i64;
    let cy = (0 - planet.extents.y) as i64;
    let k = 4 * (cy * w + cx) as usize;
    assert_eq!(&image.bytes[k..k + 4], &[110, 90, 55, 255]);
    // A pixel exactly on the flat boundary is outside it (strict
    // comparison) but within the shallow atmosphere band.
    let bx = (-100 - planet.extents.x) as i64;
    let k2 = 4 * (cy * w + bx) as usize;
    assert_eq!(&image.bytes[k2..k2 + 4], &[13, 148, 138, 255]);
}

#[test]
fn rasterized_bounds_match_extents() {
    let noise = zero_noise();
    let planet = Planet::new(Vec2i { x: 0, y: 0 }, 100, &noise, 16);
    let image = Planet::as_image(&planet);
    assert_eq!(i64::from(image.width), planet.extents.w);
    assert_eq!(i64::from(image.height), planet.extents.h);
}
