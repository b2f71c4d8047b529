use svarog::rng::Random;

#[test]
fn same_seed_gives_same_draws() {
    let mut a = Random::new(42);
    let mut b = Random::new(42);
    for i in 0..1000 {
        let lo = -(i % 17);
        let hi = 3 + (i % 23);
        assert_eq!(a.gen(lo, hi), b.gen(lo, hi));
    }
    let mut c = Random::new(43);
    let mut d = Random::new(42);
    let differs = (0..100).any(|_| c.next_raw() != d.next_raw());
    assert!(differs);
}

#[test]
fn gen_stays_in_range_and_empty_range_gives_lo() {
    let mut r = Random::new(7);
    for _ in 0..1000 {
        let v = r.gen(-60, 60);
        assert!((-60..60).contains(&v));
    }
    assert_eq!(r.gen(5, 5), 5);
    assert_eq!(r.gen(9, 2), 9);
}

#[test]
fn first_draw_from_seed_zero() {
    let mut r = Random::new(0);
    // state becomes the increment; the draw is its top 31 bits
    assert_eq!(r.next_raw(), (1442695040888963407u64 >> 33) as u32);
}

#[test]
fn shuffle_keeps_the_items() {
    let mut r = Random::new(99);
    let v: Vec<u32> = (0..50).collect();
    let mut s = r.shuffle(v.clone());
    assert_ne!(s, v);
    s.sort();
    assert_eq!(s, v);
}

#[test]
fn pick_and_percent() {
    let mut r = Random::new(5);
    for _ in 0..100 {
        let p = r.pick(&[3u8, 4, 5]);
        assert!((3..=5).contains(&p));
    }
    assert!((0..100).all(|_| !r.percent(0)));
    assert!((0..100).all(|_| r.percent(100)));
}
