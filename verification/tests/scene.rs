use rust_gpu_rendering::scene::{select_root, Root};

/// The order key of an `f32`: `None` for NaN; otherwise an integer whose order
/// is the order of the numbers (with -0.0 and 0.0 one number).
fn key(t: f32) -> Option<u32> {
    if t.is_nan() {
        return None;
    }
    let t = if t == 0.0 { 0.0f32 } else { t };
    let bits = t.to_bits();
    Some(if bits & 0x8000_0000 != 0 { !bits } else { bits | 0x8000_0000 })
}

#[test]
fn keys_order_as_numbers() {
    let xs = [f32::NEG_INFINITY, -3.5, -1e-30, 0.0, 1e-4, 2.0, 4.0, f32::INFINITY];
    for w in xs.windows(2) {
        assert!(key(w[0]).unwrap() < key(w[1]).unwrap());
    }
    assert_eq!(key(-0.0), key(0.0));
}

#[test]
fn sphere_in_front_is_hit_at_the_near_root() {
    // Ray from the origin along -z, unit sphere at z = -3: roots 2 and 4.
    assert_eq!(select_root(key(2.0), key(4.0), key(0.0)), Some(Root::Near));
}

#[test]
fn camera_inside_the_sphere_hits_the_far_root() {
    assert_eq!(select_root(key(-1.0), key(1.0), key(0.0)), Some(Root::Far));
}

#[test]
fn sphere_behind_the_camera_is_not_hit() {
    // Unit sphere at z = +3 seen along -z: roots -4 and -2.
    assert_eq!(select_root(key(-4.0), key(-2.0), key(0.0)), None);
}

#[test]
fn roots_at_t_min_are_ignored() {
    assert_eq!(select_root(key(1e-4), key(1e-4), key(1e-4)), None);
    assert_eq!(select_root(key(1e-4), key(0.5), key(1e-4)), Some(Root::Far));
}

#[test]
fn roots_that_are_not_numbers_never_hit() {
    assert_eq!(select_root(None, None, key(0.0)), None);
    assert_eq!(select_root(key(2.0), key(4.0), None), None);
    assert_eq!(select_root(None, key(4.0), key(0.0)), Some(Root::Far));
}
