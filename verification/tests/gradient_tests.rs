use opaline::{Gradient, OpalineColor};

#[test]
fn single_stop_always_returns_that_color() {
    let g = Gradient::new(vec![OpalineColor::new(255, 0, 0)]);
    assert_eq!(g.at(0, 1), OpalineColor::new(255, 0, 0));
    assert_eq!(g.at(1, 2), OpalineColor::new(255, 0, 0));
    assert_eq!(g.at(1, 1), OpalineColor::new(255, 0, 0));
}

#[test]
fn two_stop_endpoints() {
    let a = OpalineColor::new(0, 0, 0);
    let b = OpalineColor::new(255, 255, 255);
    let g = Gradient::new(vec![a, b]);

    assert_eq!(g.at(0, 1), a);
    assert_eq!(g.at(1, 1), b);
}

#[test]
fn two_stop_midpoint() {
    let a = OpalineColor::new(0, 0, 0);
    let b = OpalineColor::new(254, 254, 254);
    let g = Gradient::new(vec![a, b]);

    let mid = g.at(1, 2);
    assert_eq!(mid, OpalineColor::new(127, 127, 127));
}

#[test]
fn multi_stop_segments() {
    let r = OpalineColor::new(255, 0, 0);
    let g_color = OpalineColor::new(0, 255, 0);
    let b = OpalineColor::new(0, 0, 255);
    let grad = Gradient::new(vec![r, g_color, b]);

    // position 0 is the first stop
    assert_eq!(grad.at(0, 1), r);
    // position 1/2 is the second stop (the middle)
    assert_eq!(grad.at(1, 2), g_color);
    // position 1 is the third stop
    assert_eq!(grad.at(1, 1), b);
}

#[test]
fn at_clamps_below_zero() {
    let g = Gradient::new(vec![OpalineColor::new(100, 100, 100)]);
    assert_eq!(g.at(-1, 1), OpalineColor::new(100, 100, 100));
}

#[test]
fn at_clamps_above_one() {
    let g = Gradient::new(vec![OpalineColor::new(200, 200, 200)]);
    assert_eq!(g.at(2, 1), OpalineColor::new(200, 200, 200));
}

#[test]
fn at_clamps_with_two_stops() {
    let a = OpalineColor::new(10, 20, 30);
    let b = OpalineColor::new(40, 50, 60);
    let g = Gradient::new(vec![a, b]);
    assert_eq!(g.at(-5, 3), a);
    assert_eq!(g.at(7, 3), b);
}

#[test]
fn generate_zero_returns_empty() {
    let g = Gradient::new(vec![OpalineColor::new(255, 0, 0)]);
    assert!(g.generate(0).is_empty());
}

#[test]
fn generate_one_returns_midpoint() {
    let g = Gradient::new(vec![
        OpalineColor::new(0, 0, 0),
        OpalineColor::new(254, 254, 254),
    ]);
    let result = g.generate(1);
    assert_eq!(result.len(), 1);
    assert_eq!(result[0], OpalineColor::new(127, 127, 127));
}

#[test]
fn generate_n_correct_count() {
    let g = Gradient::new(vec![
        OpalineColor::new(0, 0, 0),
        OpalineColor::new(255, 255, 255),
    ]);
    assert_eq!(g.generate(5).len(), 5);
    assert_eq!(g.generate(10).len(), 10);
}

#[test]
fn generate_endpoints_match() {
    let a = OpalineColor::new(0, 0, 0);
    let b = OpalineColor::new(255, 255, 255);
    let g = Gradient::new(vec![a, b]);
    let result = g.generate(3);

    assert_eq!(result[0], a);
    assert_eq!(result[2], b);
}

#[test]
fn generate_matches_at_samples() {
    let g = Gradient::new(vec![
        OpalineColor::new(255, 0, 0),
        OpalineColor::new(0, 255, 0),
        OpalineColor::new(0, 0, 255),
    ]);
    let n = 7usize;
    let result = g.generate(n);
    assert_eq!(result.len(), n);
    for (i, c) in result.iter().enumerate() {
        assert_eq!(*c, g.at(i as i64, (n - 1) as i64));
    }
}

#[test]
fn len_and_is_empty() {
    let g = Gradient::new(vec![OpalineColor::fallback()]);
    assert_eq!(g.len(), 1);
    assert!(!g.is_empty());
}

#[test]
fn stops_accessor() {
    let colors = vec![OpalineColor::new(255, 0, 0), OpalineColor::new(0, 255, 0)];
    let g = Gradient::new(colors.clone());
    assert_eq!(g.stops(), &colors);
}

#[test]
fn default_is_single_fallback() {
    let g = Gradient::default();
    assert_eq!(g.len(), 1);
    assert_eq!(g.at(0, 1), OpalineColor::fallback());
}
