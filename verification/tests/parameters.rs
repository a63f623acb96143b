use julia_screensaver::numeric::SCALE;
use julia_screensaver::parameters::{lerp_fixed, Complex, FractalParameters, PolarDraw};

fn sample_a() -> FractalParameters {
    FractalParameters::new(280_000, 8_000, 1_000_000, 0, 0)
}

fn sample_b() -> FractalParameters {
    FractalParameters::new(-750_000, 110_000, 1_250_000, -200_000, 150_000)
}

#[test]
fn new_stores_each_number_in_its_field() {
    let p = FractalParameters::new(1, -2, 3, -4, 5);
    assert_eq!(p.c, Complex { re: 1, im: -2 });
    assert_eq!(p.zoom, 3);
    assert_eq!(p.x_offset, -4);
    assert_eq!(p.y_offset, 5);
}

#[test]
fn lerp_with_itself_is_the_identity() {
    let a = sample_b();
    for t in [i64::MIN, -1, 0, 1, 333_333, 500_000, 999_999, SCALE, SCALE + 1, i64::MAX] {
        assert_eq!(a.lerp(&a, t), a);
    }
}

#[test]
fn lerp_at_zero_is_the_start() {
    assert_eq!(sample_a().lerp(&sample_b(), 0), sample_a());
    assert_eq!(sample_b().lerp(&sample_a(), 0), sample_b());
}

#[test]
fn lerp_at_one_is_the_end() {
    assert_eq!(sample_a().lerp(&sample_b(), SCALE), sample_b());
    assert_eq!(sample_b().lerp(&sample_a(), SCALE), sample_a());
}

#[test]
fn lerp_clamps_its_parameter() {
    assert_eq!(sample_a().lerp(&sample_b(), -5), sample_a());
    assert_eq!(sample_a().lerp(&sample_b(), i64::MIN), sample_a());
    assert_eq!(sample_a().lerp(&sample_b(), 2 * SCALE), sample_b());
    assert_eq!(sample_a().lerp(&sample_b(), i64::MAX), sample_b());
}

#[test]
fn lerp_halfway_is_the_midpoint() {
    let m = sample_a().lerp(&sample_b(), 500_000);
    assert_eq!(m, FractalParameters::new(-235_000, 59_000, 1_125_000, -100_000, 75_000));
}

#[test]
fn lerp_fixed_exact_values() {
    assert_eq!(lerp_fixed(-300_000, 500_000, 250_000), -100_000);
    assert_eq!(lerp_fixed(10, 20, 333_333), 13);
    assert_eq!(lerp_fixed(20, 10, 333_333), 17);
    assert_eq!(lerp_fixed(-7, 7, 500_000), 0);
    assert_eq!(lerp_fixed(0, -1, 999_999), 0);
    assert_eq!(lerp_fixed(5, 9, -5), 5);
    assert_eq!(lerp_fixed(5, 9, 2 * SCALE), 9);
}

#[test]
fn lerp_fixed_spans_the_whole_range_of_the_type() {
    assert_eq!(lerp_fixed(i64::MIN, i64::MAX, 0), i64::MIN);
    assert_eq!(lerp_fixed(i64::MIN, i64::MAX, SCALE), i64::MAX);
    assert_eq!(lerp_fixed(i64::MAX, i64::MIN, SCALE), i64::MIN);
    let mid = lerp_fixed(i64::MIN, i64::MAX, 500_000);
    assert!(mid == 0 || mid == -1);
}

#[test]
fn lerp_stays_between_its_ends() {
    for t in [1i64, 10, 123_456, 500_000, 999_999] {
        let r = lerp_fixed(-40, 1_000, t);
        assert!(-40 <= r && r <= 1_000);
        let s = lerp_fixed(1_000, -40, t);
        assert!(-40 <= s && s <= 1_000);
    }
}

fn draw(radius: i64, re: i64, im: i64) -> PolarDraw {
    PolarDraw {
        radius,
        heading: Complex { re, im },
        zoom: 1_700_000,
        x_offset: -123_456,
        y_offset: 7,
    }
}

#[test]
fn random_fractals_lie_in_the_ring() {
    for _ in 0..2_000 {
        let p = FractalParameters::random();
        let modulus_sqr = p.c.re * p.c.re + p.c.im * p.c.im;
        assert!(90_000_000_000 <= modulus_sqr && modulus_sqr < 640_000_000_000);
        assert!(500_000 <= p.zoom && p.zoom < 2_000_000);
        assert!(-500_000 <= p.x_offset && p.x_offset < 500_000);
        assert!(-500_000 <= p.y_offset && p.y_offset < 500_000);
        assert!(p.is_valid());
    }
}

#[test]
fn random_fractals_differ() {
    let first = FractalParameters::random();
    let mut all_same = true;
    let mut at_lower_corner = true;
    for _ in 0..50 {
        let p = FractalParameters::random();
        if p != first {
            all_same = false;
        }
        if p.zoom != 500_000 || p.x_offset != -500_000 || p.y_offset != -500_000 {
            at_lower_corner = false;
        }
    }
    assert!(!all_same);
    assert!(!at_lower_corner);
}

#[test]
fn random_fractals_point_every_way() {
    let mut quadrants = [false; 4];
    let mut off_axis = false;
    for _ in 0..400 {
        let c = FractalParameters::random().c;
        let q = match (c.re >= 0, c.im >= 0) {
            (true, true) => 0,
            (false, true) => 1,
            (false, false) => 2,
            (true, false) => 3,
        };
        quadrants[q] = true;
        if c.im != 0 {
            off_axis = true;
        }
    }
    assert_eq!(quadrants, [true; 4]);
    assert!(off_axis);
}

#[test]
fn polar_draws_lie_in_their_ranges() {
    for _ in 0..500 {
        let d = PolarDraw::random();
        assert!(d.is_valid());
        assert!(300_000 <= d.radius && d.radius < 800_000);
        assert!(-1_000_000 <= d.heading.re && d.heading.re <= 1_000_000);
        assert!(-1_000_000 <= d.heading.im && d.heading.im <= 1_000_000);
        assert!(500_000 <= d.zoom && d.zoom < 2_000_000);
        assert!(-500_000 <= d.x_offset && d.x_offset < 500_000);
        assert!(-500_000 <= d.y_offset && d.y_offset < 500_000);
    }
}

#[test]
fn polar_draw_validity_edges() {
    let good = PolarDraw {
        radius: 300_000,
        heading: Complex { re: -1_000_000, im: 1_000_000 },
        zoom: 500_000,
        x_offset: -500_000,
        y_offset: 499_999,
    };
    assert!(good.is_valid());
    let mut d = good;
    d.radius = 299_999;
    assert!(!d.is_valid());
    d = good;
    d.radius = 800_000;
    assert!(!d.is_valid());
    d = good;
    d.heading.re = 1_000_001;
    assert!(!d.is_valid());
    d = good;
    d.heading.im = -1_000_001;
    assert!(!d.is_valid());
    d = good;
    d.zoom = 2_000_000;
    assert!(!d.is_valid());
    d = good;
    d.x_offset = 500_000;
    assert!(!d.is_valid());
    d = good;
    d.y_offset = -500_001;
    assert!(!d.is_valid());
}

#[test]
fn placing_a_polar_draw() {
    assert_eq!(
        draw(500_000, 600_000, -800_000).place(),
        Some(FractalParameters::new(300_000, -400_000, 1_700_000, -123_456, 7))
    );
    assert_eq!(
        draw(500_000, 300_000, -400_000).place(),
        Some(FractalParameters::new(300_000, -400_000, 1_700_000, -123_456, 7))
    );
    assert_eq!(
        draw(500_000, SCALE, 0).place(),
        Some(FractalParameters::new(500_000, 0, 1_700_000, -123_456, 7))
    );
    assert_eq!(
        draw(799_999, 0, -SCALE).place(),
        Some(FractalParameters::new(0, -799_999, 1_700_000, -123_456, 7))
    );
    assert_eq!(
        draw(300_000, -500_000, 0).place(),
        Some(FractalParameters::new(-300_000, 0, 1_700_000, -123_456, 7))
    );
    assert_eq!(
        draw(400_000, 500_000, 500_000).place(),
        Some(FractalParameters::new(282_843, 282_843, 1_700_000, -123_456, 7))
    );
}

#[test]
fn placing_turns_down_headings_outside_the_disk() {
    assert_eq!(draw(500_000, SCALE, 1).place(), None);
    assert_eq!(draw(500_000, SCALE, SCALE).place(), None);
    assert_eq!(draw(500_000, -800_000, 700_000).place(), None);
}

#[test]
fn placing_turns_down_short_headings() {
    assert_eq!(draw(500_000, 0, 0).place(), None);
    assert_eq!(draw(500_000, 499_999, 0).place(), None);
    assert_eq!(draw(500_000, -300_000, 399_999).place(), None);
}

#[test]
fn placing_turns_down_what_rounding_takes_out_of_the_ring() {
    assert_eq!(draw(300_000, 600_000, 800_000).place().is_some(), true);
    assert_eq!(draw(300_000, 500_000, 500_000).place(), None);
}

#[test]
fn placing_turns_down_draws_out_of_range() {
    assert_eq!(draw(299_999, SCALE, 0).place(), None);
    assert_eq!(draw(800_000, SCALE, 0).place(), None);
    assert_eq!(draw(500_000, SCALE + 1, 0).place(), None);
    let mut d = draw(500_000, SCALE, 0);
    d.zoom = 2_000_000;
    assert_eq!(d.place(), None);
}

#[test]
fn placed_constant_has_the_radius_of_the_draw() {
    let headings = [(600_000i64, 800_000i64), (-123_456, 654_321), (999, -707_000), (-500_000, -500_001)];
    for (re, im) in headings {
        for radius in [300_100i64, 456_789, 799_000] {
            let p = draw(radius, re, im).place().unwrap();
            let modulus_sqr = p.c.re * p.c.re + p.c.im * p.c.im;
            assert!((radius - 2) * (radius - 2) <= modulus_sqr);
            assert!(modulus_sqr <= (radius + 2) * (radius + 2));
        }
    }
}

#[test]
fn validity_needs_a_positive_zoom() {
    assert!(FractalParameters::new(0, 0, 1, 0, 0).is_valid());
    assert!(!FractalParameters::new(0, 0, 0, 0, 0).is_valid());
    assert!(!FractalParameters::new(0, 0, -1, 0, 0).is_valid());
}

#[test]
fn validity_bounds_every_field() {
    let limit = julia_screensaver::numeric::COORD_LIMIT;
    assert!(FractalParameters::new(limit, -limit, limit, limit, -limit).is_valid());
    assert!(!FractalParameters::new(limit + 1, 0, 1, 0, 0).is_valid());
    assert!(!FractalParameters::new(0, -limit - 1, 1, 0, 0).is_valid());
    assert!(!FractalParameters::new(0, 0, limit + 1, 0, 0).is_valid());
    assert!(!FractalParameters::new(0, 0, 1, limit + 1, 0).is_valid());
    assert!(!FractalParameters::new(0, 0, 1, 0, -limit - 1).is_valid());
}
