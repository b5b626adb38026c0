use rust_gpu_rendering::render::cpu::{
    closest_hit, pixel_coords, sample_count, Action, Event, Path,
};
use rust_gpu_rendering::render::{Framebuffer, RenderConfig};

#[test]
fn default_config_is_the_documented_control_panel() {
    let c = RenderConfig::default();
    assert!(c.shadows);
    assert_eq!(c.max_bounces, 4);
    assert_eq!(c.samples_per_pixel, 1);
}

#[test]
fn builders_change_only_their_knob() {
    let c = RenderConfig::default().shadows(false).bounces(2).samples(8);
    assert!(!c.shadows);
    assert_eq!(c.max_bounces, 2);
    assert_eq!(c.samples_per_pixel, 8);

    let d = c.bounces(7);
    assert!(!d.shadows);
    assert_eq!(d.max_bounces, 7);
    assert_eq!(d.samples_per_pixel, 8);

    let e = d.shadows(true);
    assert!(e.shadows);
    assert_eq!(e.max_bounces, 7);
    assert_eq!(e.samples_per_pixel, 8);
}

#[test]
fn control_panel_of_the_png_example() {
    let c = RenderConfig::default().shadows(true).bounces(4).samples(1);
    assert!(c.shadows);
    assert_eq!(c.max_bounces, 4);
    assert_eq!(c.samples_per_pixel, 1);
}

#[test]
fn a_pixel_takes_at_least_one_sample() {
    assert_eq!(sample_count(&RenderConfig::default().samples(0)), 1);
    assert_eq!(sample_count(&RenderConfig::default().samples(1)), 1);
    assert_eq!(sample_count(&RenderConfig::default().samples(16)), 16);
}

#[test]
fn pixels_are_shaded_row_by_row() {
    let p = pixel_coords(3, 2);
    assert_eq!(p, vec![(0, 0), (1, 0), (2, 0), (0, 1), (1, 1), (2, 1)]);
}

#[test]
fn pixel_index_is_row_times_width_plus_column() {
    let (w, h) = (800u32, 600u32);
    let p = pixel_coords(w, h);
    assert_eq!(p.len(), 480_000);
    assert_eq!(p[(599 * w + 799) as usize], (799, 599));
    assert_eq!(p[(10 * w + 3) as usize], (3, 10));
}

#[test]
fn empty_images_have_no_pixels() {
    assert!(pixel_coords(0, 5).is_empty());
    assert!(pixel_coords(5, 0).is_empty());
}

#[test]
fn new_framebuffer_is_empty() {
    let fb: Framebuffer<[u8; 4]> = Framebuffer::new(4, 3);
    assert_eq!(fb.width, 4);
    assert_eq!(fb.height, 3);
    assert!(fb.pixels.is_empty());
}

#[test]
fn rgba8_bytes_are_pixels_end_to_end() {
    let mut fb: Framebuffer<[u8; 4]> = Framebuffer::new(2, 1);
    fb.pixels.push([1, 2, 3, 255]);
    fb.pixels.push([9, 8, 7, 255]);
    assert_eq!(fb.to_rgba8_bytes(), vec![1, 2, 3, 255, 9, 8, 7, 255]);
    let empty: Framebuffer<[u8; 4]> = Framebuffer::new(0, 0);
    assert!(empty.to_rgba8_bytes().is_empty());
}

#[test]
fn closest_hit_is_the_smallest_key() {
    assert_eq!(closest_hit(&vec![None, Some(5), Some(3), None, Some(4)]), Some(2));
    assert_eq!(closest_hit(&vec![Some(7)]), Some(0));
}

#[test]
fn closest_hit_ties_go_to_the_first_object() {
    assert_eq!(closest_hit(&vec![None, Some(3), Some(3)]), Some(1));
}

#[test]
fn no_hit_when_everything_is_missed() {
    assert_eq!(closest_hit(&vec![None, None]), None);
    assert_eq!(closest_hit(&vec![]), None);
}

#[test]
fn a_miss_ends_the_path_at_the_sky() {
    let mut p = Path::new(&RenderConfig::default());
    assert!(p.may_trace());
    assert_eq!(p.advance(Event::Miss), Action::Sky);
    assert!(p.is_finished());
    assert!(!p.may_trace());
}

#[test]
fn matte_surface_gets_shadow_test_only_when_lit_and_enabled() {
    let mut p = Path::new(&RenderConfig::default());
    assert_eq!(
        p.advance(Event::Diffuse { facing_light: true }),
        Action::Diffuse { shadow_test: true }
    );
    assert!(p.is_finished());

    let mut q = Path::new(&RenderConfig::default());
    assert_eq!(
        q.advance(Event::Diffuse { facing_light: false }),
        Action::Diffuse { shadow_test: false }
    );

    let mut r = Path::new(&RenderConfig::default().shadows(false));
    assert_eq!(
        r.advance(Event::Diffuse { facing_light: true }),
        Action::Diffuse { shadow_test: false }
    );
}

#[test]
fn metal_reflects_until_the_budget_runs_out() {
    let mut p = Path::new(&RenderConfig::default().bounces(2));
    assert!(p.may_trace());
    assert_eq!(p.advance(Event::Metal), Action::Reflect);
    assert!(p.may_trace());
    assert_eq!(p.advance(Event::Metal), Action::Reflect);
    assert!(!p.may_trace());
    assert!(!p.is_finished());
}

#[test]
fn metal_then_sky() {
    let mut p = Path::new(&RenderConfig::default());
    assert_eq!(p.advance(Event::Metal), Action::Reflect);
    assert!(p.may_trace());
    assert_eq!(p.advance(Event::Miss), Action::Sky);
    assert!(p.is_finished());
}

#[test]
fn zero_bounces_traces_nothing() {
    let p = Path::new(&RenderConfig::default().bounces(0));
    assert!(!p.may_trace());
    assert!(!p.is_finished());
}

#[test]
fn one_bounce_makes_metal_black() {
    let mut p = Path::new(&RenderConfig::default().bounces(1));
    assert!(p.may_trace());
    assert_eq!(p.advance(Event::Metal), Action::Reflect);
    assert!(!p.may_trace());
    assert!(!p.is_finished());
}
