use psquare::histogram::Histogram;
use psquare::keys::{bits, fraction, key as key_of_bits, observation};
use psquare::markers::{Interpolate, InvalidMarker, Markers, Proposal, Shift, Stencil};
use psquare::quantile::Quantile;

const OBS: [f64; 20] = [
    0.02, 0.15, 0.74, 3.39, 0.83, 22.37, 10.15, 15.43, 38.62, 15.92, 34.60, 10.28, 1.47, 0.40,
    0.05, 11.39, 0.27, 0.42, 0.09, 11.37,
];
const MIN_RESULTS: [f64; 5] = [0.02, 0.15, 0.74, 0.83, 3.39];
const FULL_RESULTS: [f64; 5] = [0.02, 0.493895, 4.44063, 17.2039, 38.62];
const COUNT_RESULTS: [usize; 5] = [1, 6, 10, 16, 20];

/// The key of a number.
fn key(x: f64) -> i64 {
    key_of_bits(x.to_bits())
}

/// The number that a key stands for.
fn value(k: i64) -> f64 {
    f64::from_bits(bits(k))
}

/// An observation as the estimators take it.
fn obs(x: f64) -> Option<i64> {
    observation(x.to_bits())
}

/// An answer of an estimator as a number.
fn number(e: Option<i64>) -> f64 {
    match e {
        Some(k) => value(k),
        None => f64::NAN,
    }
}

struct Floats;

impl Interpolate for Floats {
    fn parabolic(&self, a: &Stencil, up: bool) -> i64 {
        let d = if up { 1.0 } else { -1.0 };
        let (ql, q, qr) = (value(a.left_height), value(a.height), value(a.right_height));
        let (nl, n, nr) = (a.left_position as f64, a.position as f64, a.right_position as f64);
        key(q + d / (nr - nl) * ((n - nl + d) * (qr - q) / (nr - n) + (nr - n - d) * (q - ql) / (n - nl)))
    }

    fn linear(&self, a: &Stencil, up: bool) -> i64 {
        let d = if up { 1.0 } else { -1.0 };
        let q = value(a.height);
        let n = a.position as f64;
        let (qn, nn) = if up {
            (value(a.right_height), a.right_position as f64)
        } else {
            (value(a.left_height), a.left_position as f64)
        };
        key(q + d * (qn - q) / (nn - n))
    }
}

/// An interpolation that always proposes the same height.
struct Fixed(i64);

impl Interpolate for Fixed {
    fn parabolic(&self, _a: &Stencil, _up: bool) -> i64 {
        self.0
    }

    fn linear(&self, _a: &Stencil, _up: bool) -> i64 {
        self.0
    }
}

fn estimate_q(q: &Quantile, marker: usize) -> f64 {
    number(q.estimate(marker).unwrap())
}

fn estimate_h(h: &Histogram, marker: usize) -> f64 {
    number(h.estimate(marker).unwrap())
}

#[test]
fn test_quantile_min() {
    let mut q = Quantile::new(1, 2).unwrap();
    assert!(number(q.add(obs(f64::NAN), &Floats)).is_nan());
    let mut i = 1;
    while i < 5 {
        assert!(estimate_q(&q, i).is_nan());
        assert_eq!(q.count(i).unwrap(), 0);
        q.add(obs(OBS[i - 1]), &Floats);
        i += 1;
    }
    q.add(obs(OBS[i - 1]), &Floats);
    let result = q.estimate(6);
    assert!(result.is_err());
    let result = q.count(6);
    assert!(result.is_err());

    assert_eq!(number(q.add(obs(f64::NAN), &Floats)), MIN_RESULTS[2]);

    i = 0;
    for x in &MIN_RESULTS {
        let rpq = estimate_q(&q, i + 1);
        assert!(
            (rpq - x).abs() < 0.00001,
            "marker: {} received:{} expected:{}",
            i + 1,
            rpq,
            x
        );
        i += 1;
        assert_eq!(i, q.count(i).unwrap());
    }
    q.clear();
    assert_eq!(0, q.count(5).unwrap());
}

#[test]
fn test_quantile() {
    let mut q = Quantile::new(1, 2).unwrap();
    let mut median = 0.0;
    for x in &OBS {
        median = number(q.add(obs(*x), &Floats));
    }

    let mut i = 1;
    for x in &FULL_RESULTS {
        let rpq = estimate_q(&q, i);
        assert!(
            (rpq - x).abs() < 0.00001,
            "marker: {} received:{} expected:{}",
            i,
            rpq,
            x
        );
        if i == 3 {
            assert!(
                (rpq - median).abs() < 0.00001,
                "add() received:{} expected:{}",
                rpq,
                median
            );
        }
        i += 1;
    }

    i = 1;
    for x in &COUNT_RESULTS {
        let cnt = q.count(i).unwrap();
        assert_eq!(cnt, *x);
        i += 1;
    }
}

#[test]
fn test_histogram_min() {
    let mut q = Histogram::new(4).unwrap();
    let mut i = 1;
    while i < 5 {
        assert!(estimate_h(&q, i).is_nan());
        assert_eq!(q.count(i).unwrap(), 0);
        q.add(obs(OBS[i - 1]), &Floats);
        i += 1;
    }
    q.add(obs(OBS[i - 1]), &Floats);
    let result = q.estimate(6);
    assert!(result.is_err());
    let result = q.count(6);
    assert!(result.is_err());

    i = 0;
    for x in &MIN_RESULTS {
        let rpq = estimate_h(&q, i + 1);
        assert!(
            (rpq - x).abs() < 0.00001,
            "marker: {} received:{} expected:{}",
            i + 1,
            rpq,
            x
        );
        i += 1;
        assert_eq!(i, q.count(i).unwrap());
    }
    q.clear();
    assert_eq!(0, q.count(5).unwrap());
}

#[test]
fn test_histogram() {
    let mut q = Histogram::new(4).unwrap();
    for x in &OBS {
        q.add(obs(*x), &Floats);
    }

    let mut i = 1;
    for x in &FULL_RESULTS {
        let rpq = estimate_h(&q, i);
        assert!(
            (rpq - x).abs() < 0.00001,
            "marker: {} received:{} expected:{}",
            i,
            rpq,
            x
        );
        i += 1;
    }

    i = 1;
    for x in &COUNT_RESULTS {
        let cnt = q.count(i).unwrap();
        assert_eq!(cnt, *x);
        i += 1;
    }
}

#[test]
fn histogram_refuses_bucket_counts_out_of_range() {
    assert!(Histogram::new(0).is_err());
    assert!(Histogram::new(3).is_err());
    assert!(Histogram::new(4).is_ok());
    assert!(Histogram::new(65534).is_ok());
    assert!(Histogram::new(65535).is_err());
    let e = Histogram::new(3).unwrap_err();
    assert_eq!(e.as_str(), "buckets out of range 3 < buckets < u16 MAX - 1");
}

#[test]
fn quantile_refuses_fractions_out_of_range() {
    assert!(Quantile::new(0, 2).is_err());
    assert!(Quantile::new(2, 2).is_err());
    assert!(Quantile::new(3, 2).is_err());
    assert!(Quantile::new(1, 0).is_err());
    assert!(Quantile::new(1, 2).is_ok());
    assert!(Quantile::new(999, 1000).is_ok());
    let e = Quantile::new(0, 2).unwrap_err();
    assert_eq!(e.as_str(), "p_quantile out of range 0 < p < 1");
}

#[test]
fn markers_outside_the_set_are_refused() {
    let mut q = Quantile::new(1, 2).unwrap();
    let mut h = Histogram::new(7).unwrap();
    assert_eq!(q.estimate(0), Err(InvalidMarker { marker: 0, markers: 5 }));
    assert_eq!(q.count(0), Err(InvalidMarker { marker: 0, markers: 5 }));
    assert_eq!(q.estimate(6), Err(InvalidMarker { marker: 6, markers: 5 }));
    assert_eq!(h.estimate(0), Err(InvalidMarker { marker: 0, markers: 8 }));
    assert_eq!(h.count(9), Err(InvalidMarker { marker: 9, markers: 8 }));
    assert_eq!(h.estimate(8), Ok(None));
    for x in &OBS {
        q.add(obs(*x), &Floats);
        h.add(obs(*x), &Floats);
    }
    assert_eq!(q.estimate(0), Err(InvalidMarker { marker: 0, markers: 5 }));
    assert_eq!(q.count(6), Err(InvalidMarker { marker: 6, markers: 5 }));
    assert_eq!(h.estimate(9), Err(InvalidMarker { marker: 9, markers: 8 }));
    assert_eq!(h.count(0), Err(InvalidMarker { marker: 0, markers: 8 }));
    assert!(h.estimate(8).unwrap().is_some());
}

#[test]
fn nothing_is_read_before_the_set_is_ready() {
    let mut h = Histogram::new(5).unwrap();
    for (seen, x) in OBS.iter().take(5).enumerate() {
        assert!(!h.is_ready());
        for marker in 1..=6 {
            assert_eq!(h.estimate(marker), Ok(None), "after {} observations", seen);
            assert_eq!(h.count(marker), Ok(0));
        }
        h.add(obs(*x), &Floats);
    }
    assert!(!h.is_ready());
    h.add(obs(OBS[5]), &Floats);
    assert!(h.is_ready());
    assert_eq!(h.count(6), Ok(6));
    assert_eq!(estimate_h(&h, 1), 0.02);
    assert_eq!(estimate_h(&h, 6), 22.37);
}

fn read_q(q: &Quantile) -> Vec<(Option<i64>, usize)> {
    (1..=5).map(|m| (q.estimate(m).unwrap(), q.count(m).unwrap())).collect()
}

fn read_h(h: &Histogram, markers: usize) -> Vec<(Option<i64>, usize)> {
    (1..=markers).map(|m| (h.estimate(m).unwrap(), h.count(m).unwrap())).collect()
}

#[test]
fn an_observation_that_is_no_number_changes_nothing() {
    let mut q = Quantile::new(1, 4).unwrap();
    let mut h = Histogram::new(4).unwrap();
    for (i, x) in OBS.iter().enumerate() {
        let before_q = read_q(&q);
        let before_h = read_h(&h, 5);
        let echo = q.add(None, &Floats);
        h.add(None, &Floats);
        assert_eq!(read_q(&q), before_q);
        assert_eq!(read_h(&h, 5), before_h);
        if i < 5 {
            assert_eq!(echo, None);
        } else {
            assert_eq!(echo, q.estimate(3).unwrap());
            assert!(echo.is_some());
        }
        q.add(obs(*x), &Floats);
        h.add(obs(*x), &Floats);
    }
    // A stored observation is not lost to one that is no number in between.
    let mut plain = Quantile::new(1, 4).unwrap();
    for x in &OBS {
        plain.add(obs(*x), &Floats);
    }
    assert_eq!(read_q(&plain), read_q(&q));
}

#[test]
fn clearing_and_replaying_gives_what_a_new_estimator_gives() {
    let mut used_q = Quantile::new(3, 10).unwrap();
    let mut used_h = Histogram::new(6).unwrap();
    for x in OBS.iter().rev() {
        used_q.add(obs(*x * 3.0), &Floats);
        used_h.add(obs(*x * 3.0), &Floats);
    }
    used_q.clear().clear();
    used_h.clear().clear();
    let mut new_q = Quantile::new(3, 10).unwrap();
    let mut new_h = Histogram::new(6).unwrap();
    assert_eq!(read_q(&used_q), read_q(&new_q));
    assert_eq!(read_h(&used_h, 7), read_h(&new_h, 7));
    for x in &OBS {
        let a = used_q.add(obs(*x), &Floats);
        let b = new_q.add(obs(*x), &Floats);
        assert_eq!(a, b);
        used_h.add(obs(*x), &Floats);
        new_h.add(obs(*x), &Floats);
        assert_eq!(read_q(&used_q), read_q(&new_q));
        assert_eq!(read_h(&used_h, 7), read_h(&new_h, 7));
    }
}

#[test]
fn heights_ascend_and_counts_climb_after_every_addition() {
    let mut q = Quantile::new(1, 10).unwrap();
    let mut h = Histogram::new(4).unwrap();
    let mut last_q = vec![0usize; 5];
    let mut last_h = vec![0usize; 5];
    let mut added = 0;
    for round in 0..50 {
        for x in &OBS {
            let x = if round % 2 == 0 { *x } else { 40.0 - *x };
            q.add(obs(x), &Floats);
            h.add(obs(x), &Floats);
            added += 1;
            if added < 5 {
                continue;
            }
            let now_q = read_q(&q);
            let now_h = read_h(&h, 5);
            for i in 1..5 {
                assert!(now_q[i - 1].0.unwrap() <= now_q[i].0.unwrap());
                assert!(now_h[i - 1].0.unwrap() <= now_h[i].0.unwrap());
                assert!(now_q[i - 1].1 < now_q[i].1);
                assert!(now_h[i - 1].1 < now_h[i].1);
            }
            for i in 0..5 {
                assert!(last_q[i] <= now_q[i].1);
                assert!(last_h[i] <= now_h[i].1);
                last_q[i] = now_q[i].1;
                last_h[i] = now_h[i].1;
            }
            assert_eq!(now_q[0].1, 1);
            assert_eq!(now_q[4].1, added);
            assert_eq!(now_h[4].1, added);
        }
    }
}

fn filled(targets: Vec<u64>, scale: u64) -> Markers {
    let mut m = Markers::new(targets, scale);
    for x in [30, 50, 10, 40, 20] {
        assert!(!m.is_ready());
        m.store(x);
    }
    assert!(m.is_ready());
    m
}

fn heights(m: &Markers) -> Vec<i64> {
    (1..=m.len()).map(|i| m.estimate(i).unwrap().unwrap()).collect()
}

fn counts(m: &Markers) -> Vec<usize> {
    (1..=m.len()).map(|i| m.count(i).unwrap()).collect()
}

#[test]
fn storing_the_last_observation_sorts_the_heights() {
    let m = filled(vec![0, 1, 2, 3, 4], 4);
    assert_eq!(m.len(), 5);
    assert_eq!(heights(&m), vec![10, 20, 30, 40, 50]);
    assert_eq!(counts(&m), vec![1, 2, 3, 4, 5]);
}

#[test]
fn the_bucket_is_the_first_interval_that_holds_the_observation() {
    let m = filled(vec![0, 1, 2, 3, 4], 4);
    assert_eq!(m.locate(5), 1);
    assert_eq!(m.locate(10), 1);
    assert_eq!(m.locate(19), 1);
    assert_eq!(m.locate(20), 2);
    assert_eq!(m.locate(35), 3);
    assert_eq!(m.locate(40), 4);
    assert_eq!(m.locate(50), 4);
    assert_eq!(m.locate(60), 4);
    assert_eq!(m.locate(i64::MIN), 1);
    assert_eq!(m.locate(i64::MAX), 4);
}

#[test]
fn taking_an_observation_stretches_the_ends_and_counts_from_the_bucket() {
    let mut m = filled(vec![0, 1, 2, 3, 4], 4);
    m.take(35);
    assert_eq!(heights(&m), vec![10, 20, 30, 40, 50]);
    assert_eq!(counts(&m), vec![1, 2, 3, 5, 6]);
    m.take(5);
    assert_eq!(heights(&m), vec![5, 20, 30, 40, 50]);
    assert_eq!(counts(&m), vec![1, 3, 4, 6, 7]);
    m.take(70);
    assert_eq!(heights(&m), vec![5, 20, 30, 40, 70]);
    assert_eq!(counts(&m), vec![1, 3, 4, 6, 8]);
    m.take(70);
    assert_eq!(counts(&m), vec![1, 3, 4, 6, 9]);
}

#[test]
fn a_marker_moves_when_it_is_a_full_rank_off_and_has_room() {
    // Desired positions 1 + (total - 1) * i / 4.
    let mut m = filled(vec![0, 1, 2, 3, 4], 4);
    m.take(35);
    assert_eq!(m.shift(1), Shift::Stay);
    assert_eq!(m.shift(2), Shift::Stay);
    assert_eq!(m.shift(3), Shift::Stay);
    m.take(5);
    assert_eq!(m.shift(1), Shift::Stay);
    m.take(4);
    // counts 1 4 5 7 8: marker 2 stands at 4 and should stand at 2.75.
    assert_eq!(counts(&m), vec![1, 4, 5, 7, 8]);
    assert_eq!(m.shift(1), Shift::Down);
    // Marker 3 stands at 5 and should stand at 4.5.
    assert_eq!(m.shift(2), Shift::Stay);

    // Every interior marker aims at the top.
    let mut up = filled(vec![0, 4, 4, 4, 4], 4);
    up.take(60);
    assert_eq!(counts(&up), vec![1, 2, 3, 4, 6]);
    // No room between markers 2 and 3, room between 4 and 5.
    assert_eq!(up.shift(1), Shift::Stay);
    assert_eq!(up.shift(3), Shift::Up);
}

#[test]
fn a_marker_that_is_exactly_one_rank_off_moves() {
    let mut m = filled(vec![0, 1, 2, 3, 4], 4);
    // Four observations above the maximum: total 9, desired 1 3 5 7 9.
    for x in [60, 70, 80, 90] {
        m.take(x);
    }
    assert_eq!(counts(&m), vec![1, 2, 3, 4, 9]);
    assert_eq!(m.shift(3), Shift::Up);
    assert_eq!(m.shift(1), Shift::Stay);
    m.relocate(3, true, 45);
    assert_eq!(counts(&m), vec![1, 2, 3, 5, 9]);
    assert_eq!(m.shift(2), Shift::Up);
}

#[test]
fn a_proposal_is_taken_only_where_it_keeps_the_heights_in_order() {
    let mut m = filled(vec![0, 1, 2, 3, 4], 4);
    m.take(5);
    m.take(4);
    assert_eq!(heights(&m), vec![4, 20, 30, 40, 50]);
    assert!(m.admits(1, 5));
    assert!(m.admits(1, 29));
    assert!(!m.admits(1, 4));
    assert!(!m.admits(1, 30));
    assert!(!m.admits(1, 1000));
    let around = m.stencil(1);
    assert_eq!(
        (around.left_height, around.height, around.right_height),
        (4, 20, 30)
    );
    assert_eq!(
        (around.left_position, around.position, around.right_position),
        (1, 4, 5)
    );
    m.relocate(1, false, 1000);
    assert_eq!(heights(&m), vec![4, 20, 30, 40, 50]);
    assert_eq!(counts(&m), vec![1, 3, 5, 6, 7]);
    m.take(3);
    m.relocate(1, false, 3);
    assert_eq!(heights(&m), vec![3, 3, 30, 40, 50]);
    assert_eq!(counts(&m), vec![1, 3, 6, 7, 8]);
    m.relocate(2, false, 17);
    assert_eq!(heights(&m), vec![3, 3, 17, 40, 50]);
    assert_eq!(counts(&m), vec![1, 3, 5, 7, 8]);
}

#[test]
fn adding_moves_the_markers_that_are_due_to_the_proposed_height() {
    let mut m = filled(vec![0, 1, 2, 3, 4], 4);
    m.add(5, &Fixed(25));
    assert_eq!(heights(&m), vec![5, 20, 30, 40, 50]);
    assert_eq!(counts(&m), vec![1, 3, 4, 5, 6]);
    m.add(4, &Fixed(25));
    // total 7, desired 1 2.5 4 5.5 7: markers 2 and 3 move down, then 4.
    assert_eq!(counts(&m), vec![1, 3, 4, 6, 7]);
    assert_eq!(heights(&m), vec![4, 25, 25, 40, 50]);
    // A proposal out of order is dropped, the count still moves.
    let mut n = filled(vec![0, 1, 2, 3, 4], 4);
    n.add(5, &Fixed(1000));
    n.add(4, &Fixed(1000));
    assert_eq!(counts(&n), vec![1, 3, 4, 6, 7]);
    assert_eq!(heights(&n), vec![4, 20, 30, 40, 50]);
}

#[test]
fn clearing_a_marker_set_empties_it() {
    let mut m = filled(vec![0, 1, 2, 3, 4], 4);
    m.add(5, &Fixed(25));
    m.clear();
    assert!(!m.is_ready());
    assert_eq!(m.count(5), Ok(0));
    assert_eq!(m.estimate(1), Ok(None));
    for x in [3, 1, 2, 5, 4] {
        m.add(x, &Fixed(0));
    }
    assert_eq!(heights(&m), vec![1, 2, 3, 4, 5]);
    assert_eq!(counts(&m), vec![1, 2, 3, 4, 5]);
}

#[test]
fn keys_order_as_the_numbers_do() {
    let xs = [
        f64::NEG_INFINITY,
        f64::MIN,
        -1.0e300,
        -3.5,
        -1.0e-300,
        -0.0,
        0.0,
        1.0e-300,
        0.02,
        38.62,
        f64::MAX,
        f64::INFINITY,
    ];
    for w in xs.windows(2) {
        assert!(key(w[0]) < key(w[1]));
    }
    for x in xs {
        assert_eq!(value(key(x)).to_bits(), x.to_bits());
    }
    assert_eq!(key(0.0), 0);
    assert_eq!(key(-0.0), -1);
    assert_eq!(key(f64::from_bits(1)), 1);
    assert_eq!(key(f64::from_bits(0x8000_0000_0000_0001)), -2);
    assert_eq!(key(f64::from_bits(u64::MAX)), i64::MIN);
    assert_eq!(bits(i64::MIN), u64::MAX);
    assert_eq!(bits(-1), 0x8000_0000_0000_0000);
    assert_eq!(bits(i64::MAX), 0x7fff_ffff_ffff_ffff);
    assert_eq!(value(key(1.0)), 1.0);
}

#[test]
fn what_is_no_number_makes_no_observation() {
    assert_eq!(obs(f64::NAN), None);
    assert_eq!(obs(-f64::NAN), None);
    assert_eq!(observation(0x7ff0_0000_0000_0001), None);
    assert_eq!(observation(0xfff0_0000_0000_0001), None);
    assert_eq!(obs(f64::INFINITY), Some(0x7ff0_0000_0000_0000));
    assert_eq!(obs(f64::NEG_INFINITY), Some(-1 - 0x7ff0_0000_0000_0000));
    assert_eq!(obs(0.0), Some(0));
    assert_eq!(obs(-0.0), Some(0));
    assert_eq!(obs(0.02), Some(key(0.02)));
    assert_eq!(obs(-0.02), Some(key(-0.02)));
    assert!(obs(-0.02) < obs(0.0));
}

#[test]
fn a_fraction_is_read_from_the_bits_of_a_number() {
    assert_eq!(fraction(0.5f32.to_bits()), Some((0x80_0000, 0x100_0000)));
    assert_eq!(fraction(0.75f32.to_bits()), Some((0xc0_0000, 0x100_0000)));
    assert_eq!(fraction(0.25f32.to_bits()), Some((0x80_0000, 0x200_0000)));
    for p in [0.1f32, 0.5, 0.9, 0.99, 0.001, 1.0e-9, 0.999_999_94] {
        let (num, den) = fraction(p.to_bits()).unwrap();
        assert!(0 < num && num < den);
        assert!(den.is_power_of_two());
        assert_eq!(num as f64 / den as f64, p as f64);
    }
    assert_eq!(fraction(0.0f32.to_bits()), None);
    assert_eq!(fraction(1.0f32.to_bits()), None);
    assert_eq!(fraction(1.5f32.to_bits()), None);
    assert_eq!(fraction((-0.5f32).to_bits()), None);
    assert_eq!(fraction(f32::NAN.to_bits()), None);
    assert_eq!(fraction(f32::INFINITY.to_bits()), None);
    // 2^-39 is the least number that is read; the number below it is not.
    let least = f32::from_bits(88 << 23);
    assert_eq!(fraction(least.to_bits()), Some((0x80_0000, 1 << 62)));
    assert_eq!(fraction(least.to_bits() - 1), None);
    let q = Quantile::new(0x80_0000, 1 << 62);
    assert!(q.is_ok());
}

#[test]
fn a_quantile_read_from_bits_estimates_as_the_fraction_does() {
    let (num, den) = fraction(0.5f32.to_bits()).unwrap();
    let mut a = Quantile::new(num, den).unwrap();
    let mut b = Quantile::new(1, 2).unwrap();
    for x in &OBS {
        assert_eq!(a.add(obs(*x), &Floats), b.add(obs(*x), &Floats));
    }
    assert_eq!(read_q(&a), read_q(&b));
}

/// A fixed stream of numbers in `[0, 1)`.
fn stream(len: usize) -> Vec<f64> {
    let mut state: u64 = 0x2545_f491_4f6c_dd1d;
    let mut out = Vec::with_capacity(len);
    for _ in 0..len {
        state = state.wrapping_mul(6364136223846793005).wrapping_add(1442695040888963407);
        out.push((state >> 11) as f64 / (1u64 << 53) as f64);
    }
    out
}

#[test]
fn a_long_stream_keeps_the_markers_in_order_and_near_the_quantiles() {
    let mut h = Histogram::new(10).unwrap();
    let mut q = Quantile::new(9, 10).unwrap();
    let xs = stream(20_000);
    for (seen, x) in xs.iter().enumerate() {
        h.add(obs(*x), &Floats);
        let answer = q.add(obs(*x), &Floats);
        let added = seen + 1;
        assert_eq!(answer.is_some(), added >= 5);
        assert_eq!(answer, q.estimate(3).unwrap());
        if added < 11 {
            assert!(!h.is_ready());
            continue;
        }
        let now = read_h(&h, 11);
        for i in 1..11 {
            assert!(now[i - 1].0.unwrap() <= now[i].0.unwrap());
            assert!(now[i - 1].1 < now[i].1);
        }
        assert_eq!(now[0].1, 1);
        assert_eq!(now[10].1, added);
    }
    for marker in 1..=11 {
        let wanted = (marker - 1) as f64 / 10.0;
        assert!((estimate_h(&h, marker) - wanted).abs() < 0.02, "boundary {}", marker);
    }
    assert!((estimate_q(&q, 3) - 0.9).abs() < 0.02);
    assert!((estimate_q(&q, 2) - 0.45).abs() < 0.03);
    assert!((estimate_q(&q, 4) - 0.95).abs() < 0.02);
    assert_eq!(q.count(5), Ok(20_000));
}

#[test]
fn equal_observations_leave_every_marker_at_their_value() {
    let mut h = Histogram::new(4).unwrap();
    let mut q = Quantile::new(1, 2).unwrap();
    for _ in 0..100 {
        h.add(obs(2.5), &Floats);
        q.add(obs(2.5), &Floats);
    }
    for marker in 1..=5 {
        assert_eq!(estimate_h(&h, marker), 2.5);
        assert_eq!(estimate_q(&q, marker), 2.5);
    }
    assert_eq!(h.count(5), Ok(100));
    assert_eq!(q.count(5), Ok(100));
    assert_eq!(h.count(1), Ok(1));
}

#[test]
fn the_linear_height_is_put_forward_where_there_is_one() {
    assert_eq!(Proposal { parabolic: 3, linear: None }.height(), 3);
    assert_eq!(Proposal { parabolic: 3, linear: Some(7) }.height(), 7);
    assert_eq!(Proposal { parabolic: -3, linear: Some(i64::MIN) }.height(), i64::MIN);
}
