use tcolour::{position_key, Gradient};

type Rgba = [f64; 4];

fn p(x: f64) -> u64 {
    x.to_bits()
}

fn solid(r: f64, g: f64, b: f64) -> Rgba {
    [r, g, b, 1.0]
}

fn grey(v: f64) -> Rgba {
    solid(v, v, v)
}

fn red(v: f64) -> Rgba {
    solid(v, 0.0, 0.0)
}

fn green(v: f64) -> Rgba {
    solid(0.0, v, 0.0)
}

fn blue(v: f64) -> Rgba {
    solid(0.0, 0.0, v)
}

fn transparent() -> Rgba {
    [0.0, 0.0, 0.0, 0.0]
}

fn primaries() -> Gradient<Rgba> {
    Gradient::from_stops(vec![
        (p(0.5), solid(1.0, 0.0, 0.0)),
        (p(0.7), solid(0.0, 1.0, 0.0)),
        (p(0.8), solid(0.0, 0.0, 1.0)),
    ])
}

#[test]
fn subgradient_test() {
    let gradient = primaries();
    assert_eq!(
        gradient.subgradient(p(0.1)),
        ((p(0.5), solid(1.0, 0.0, 0.0)), (p(0.5), solid(1.0, 0.0, 0.0)))
    );
    assert_eq!(
        gradient.subgradient(p(0.6)),
        ((p(0.5), solid(1.0, 0.0, 0.0)), (p(0.7), solid(0.0, 1.0, 0.0)))
    );
    assert_eq!(
        gradient.subgradient(p(0.75)),
        ((p(0.7), solid(0.0, 1.0, 0.0)), (p(0.8), solid(0.0, 0.0, 1.0)))
    );
    assert_eq!(
        gradient.subgradient(p(0.9)),
        ((p(0.8), solid(0.0, 0.0, 1.0)), (p(0.8), solid(0.0, 0.0, 1.0)))
    );
}

#[test]
fn insertion_test() {
    let mut gradient = primaries();
    gradient.insert(p(0.3), grey(0.5));
    assert_eq!(gradient.stops().first().unwrap().1, grey(0.5));
    gradient.insert(p(0.9), grey(0.2));
    assert_eq!(gradient.stops().last().unwrap().1, grey(0.2));
    gradient.insert(p(0.6), red(0.8));
    assert_eq!(gradient.stops()[2].1, red(0.8));
    gradient.insert(p(0.85), transparent());
    assert_eq!(gradient.stops()[5].1, transparent());
    assert_eq!(gradient.stops()[6].1, grey(0.2));
    let mut magenta = red(1.0);
    magenta[2] = 1.0;
    gradient.insert(p(0.5), magenta);
    assert_eq!(
        *gradient.stops(),
        vec![
            (p(0.3), grey(0.5)),
            (p(0.5), magenta),
            (p(0.6), red(0.8)),
            (p(0.7), green(1.0)),
            (p(0.8), blue(1.0)),
            (p(0.85), transparent()),
            (p(0.9), grey(0.2)),
        ]
    );
}

#[test]
fn subgradient_at_a_stop_takes_the_next_stop_as_upper() {
    let gradient = primaries();
    assert_eq!(gradient.subgradient(p(0.7)), ((p(0.7), green(1.0)), (p(0.8), blue(1.0))));
    assert_eq!(gradient.subgradient(p(0.5)), ((p(0.5), red(1.0)), (p(0.7), green(1.0))));
    assert_eq!(gradient.subgradient(p(0.8)), ((p(0.8), blue(1.0)), (p(0.8), blue(1.0))));
}

#[test]
fn single_stop_brackets_every_position() {
    let gradient = Gradient::from_stops(vec![(p(0.4), grey(1.0))]);
    for t in [-3.0, 0.0, 0.4, 0.5, 100.0, f64::INFINITY, f64::NEG_INFINITY] {
        assert_eq!(gradient.subgradient(p(t)), ((p(0.4), grey(1.0)), (p(0.4), grey(1.0))));
    }
}

#[test]
fn select_picks_lower_and_upper_colours() {
    let gradient = primaries();
    assert_eq!(gradient.select(p(0.75)), green(1.0));
    assert_eq!(gradient.select_upper(p(0.75)), blue(1.0));
    assert_eq!(gradient.select(p(0.1)), red(1.0));
    assert_eq!(gradient.select_upper(p(0.1)), red(1.0));
}

#[test]
fn insert_at_existing_position_replaces_colour() {
    let mut gradient = primaries();
    gradient.insert(p(0.7), grey(0.3));
    assert_eq!(gradient.len(), 3);
    assert_eq!(gradient.stops()[1], (p(0.7), grey(0.3)));
    assert_eq!(gradient.stops()[0], (p(0.5), red(1.0)));
    assert_eq!(gradient.stops()[2], (p(0.8), blue(1.0)));
}

#[test]
fn insert_at_new_position_adds_one_stop_in_order() {
    let mut gradient = primaries();
    gradient.insert(p(0.75), grey(0.3));
    assert_eq!(gradient.len(), 4);
    let positions: Vec<f64> = gradient.stops().iter().map(|s| f64::from_bits(s.0)).collect();
    assert_eq!(positions, vec![0.5, 0.7, 0.75, 0.8]);
}

#[test]
fn negative_zero_is_the_same_position_as_zero() {
    let mut gradient = Gradient::from_stops(vec![(p(0.0), grey(0.1)), (p(1.0), grey(0.9))]);
    gradient.insert(p(-0.0), grey(0.5));
    assert_eq!(gradient.len(), 2);
    assert_eq!(gradient.stops()[0], (p(0.0), grey(0.5)));
}

#[test]
fn negative_positions_are_ordered_numerically() {
    let gradient = Gradient::from_stops(vec![
        (p(1.0), grey(1.0)),
        (p(-1.0), grey(0.0)),
        (p(-0.1), grey(0.2)),
        (p(0.3), grey(0.4)),
    ]);
    let positions: Vec<f64> = gradient.stops().iter().map(|s| f64::from_bits(s.0)).collect();
    assert_eq!(positions, vec![-1.0, -0.1, 0.3, 1.0]);
    assert_eq!(gradient.subgradient(p(-0.5)), ((p(-1.0), grey(0.0)), (p(-0.1), grey(0.2))));
}

#[test]
fn from_stops_keeps_the_last_colour_of_a_repeated_position() {
    let gradient = Gradient::from_stops(vec![(p(0.2), grey(0.1)), (p(0.2), grey(0.7))]);
    assert_eq!(*gradient.stops(), vec![(p(0.2), grey(0.7))]);
}

#[test]
fn new_gradient_is_empty() {
    let gradient: Gradient<Rgba> = Gradient::new();
    assert_eq!(gradient.len(), 0);
    assert!(gradient.stops().is_empty());
}

#[test]
fn position_key_follows_numeric_order() {
    let values = [
        f64::NEG_INFINITY,
        -1.0e300,
        -2.5,
        -1.0,
        -f64::MIN_POSITIVE,
        -0.0,
        f64::MIN_POSITIVE,
        0.5,
        1.0,
        7.25,
        1.0e300,
        f64::INFINITY,
    ];
    for a in values {
        for b in values {
            let (ka, kb) = (position_key(a.to_bits()), position_key(b.to_bits()));
            assert_eq!(a < b, ka < kb, "{} {}", a, b);
            assert_eq!(a == b, ka == kb, "{} {}", a, b);
        }
    }
    assert_eq!(position_key(0.0f64.to_bits()), 0x8000_0000_0000_0000);
    assert_eq!(position_key((-0.0f64).to_bits()), 0x8000_0000_0000_0000);
    assert_eq!(position_key(1.0f64.to_bits()), 0xBFF0_0000_0000_0000);
    assert_eq!(position_key((-1.0f64).to_bits()), 0x400F_FFFF_FFFF_FFFF);
}
