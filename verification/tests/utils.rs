use average::{Estimate, MeanWithError, Quantile};
use runtime::StreamingStat;

fn bits(samples: &[f64]) -> Vec<u64> {
    samples.iter().map(|x| x.to_bits()).collect()
}

fn numbers(stat: &StreamingStat) -> Vec<f64> {
    stat.samples().iter().map(|b| f64::from_bits(*b)).collect()
}

fn mean(stat: &StreamingStat) -> (f64, f64) {
    let mut m = MeanWithError::new();
    for x in numbers(stat) {
        m.add(x);
    }
    (m.mean(), m.error())
}

fn p99(stat: &StreamingStat) -> f64 {
    let mut q = Quantile::new(0.99);
    for x in numbers(stat) {
        q.add(x);
    }
    q.quantile()
}

#[test]
fn fresh_ring_is_all_zeros() {
    let s = StreamingStat::with_capacity(4);
    assert_eq!(s.capacity(), 4);
    assert_eq!(s.samples(), &vec![0u64; 4]);
    assert_eq!(numbers(&s), vec![0.0; 4]);
}

#[test]
fn samples_fill_the_slots_in_order() {
    let mut s = StreamingStat::with_capacity(3);
    s.add(1.5f64.to_bits());
    assert_eq!(numbers(&s), vec![1.5, 0.0, 0.0]);
    s.add(2.5f64.to_bits());
    assert_eq!(numbers(&s), vec![1.5, 2.5, 0.0]);
    s.add(3.5f64.to_bits());
    assert_eq!(numbers(&s), vec![1.5, 2.5, 3.5]);
}

#[test]
fn the_oldest_sample_is_written_over() {
    let mut s = StreamingStat::with_capacity(3);
    for x in bits(&[1.0, 2.0, 3.0, 4.0]) {
        s.add(x);
    }
    assert_eq!(numbers(&s), vec![4.0, 2.0, 3.0]);
    s.add(5.0f64.to_bits());
    s.add(6.0f64.to_bits());
    assert_eq!(numbers(&s), vec![4.0, 5.0, 6.0]);
    s.add(7.0f64.to_bits());
    assert_eq!(numbers(&s), vec![7.0, 5.0, 6.0]);
}

#[test]
fn ring_of_one_slot_keeps_the_newest() {
    let mut s = StreamingStat::with_capacity(1);
    assert_eq!(s.samples(), &vec![0u64]);
    s.add(9);
    assert_eq!(s.samples(), &vec![9u64]);
    s.add(8);
    assert_eq!(s.samples(), &vec![8u64]);
}

#[test]
fn ring_holds_exactly_the_most_recent_samples() {
    for capacity in 1..6usize {
        for total in 0..14usize {
            let mut s = StreamingStat::with_capacity(capacity);
            let mut history = vec![0u64; capacity];
            for k in 0..total {
                let x = (k as u64 + 1) * 10;
                s.add(x);
                history.push(x);
            }
            let window = &history[history.len() - capacity..];
            let start = total % capacity;
            for i in 0..capacity {
                assert_eq!(s.samples()[(start + i) % capacity], window[i]);
            }
            let mut held = s.samples().clone();
            held.sort();
            let mut expected = window.to_vec();
            expected.sort();
            assert_eq!(held, expected);
        }
    }
}

#[test]
fn mean_over_a_full_ring() {
    let mut s = StreamingStat::with_capacity(4);
    for x in bits(&[1.0, 2.0, 3.0, 4.0]) {
        s.add(x);
    }
    let (m, e) = mean(&s);
    assert_eq!(m, 2.5);
    assert!((e - (5.0f64 / 3.0 / 4.0).sqrt()).abs() < 1e-12);
}

#[test]
fn mean_before_the_ring_is_full_counts_the_zeros() {
    let mut s = StreamingStat::with_capacity(4);
    s.add(8.0f64.to_bits());
    let (m, _) = mean(&s);
    assert_eq!(m, 2.0);
}

#[test]
fn mean_forgets_what_was_written_over() {
    let mut s = StreamingStat::with_capacity(2);
    for x in bits(&[100.0, 200.0, 1.0, 3.0]) {
        s.add(x);
    }
    let (m, e) = mean(&s);
    assert_eq!(m, 2.0);
    assert!((e - 1.0).abs() < 1e-12);
}

#[test]
fn p99_of_a_constant_ring() {
    let mut s = StreamingStat::with_capacity(8);
    for _ in 0..8 {
        s.add(5.0f64.to_bits());
    }
    assert_eq!(p99(&s), 5.0);
}

#[test]
fn p99_of_a_fresh_ring_is_zero() {
    let s = StreamingStat::with_capacity(10);
    assert_eq!(p99(&s), 0.0);
}

#[test]
fn p99_lies_near_the_top_of_the_samples() {
    let mut s = StreamingStat::with_capacity(200);
    for k in 0..200 {
        s.add((k as f64).to_bits());
    }
    let q = p99(&s);
    assert!(q > 190.0 && q <= 199.0, "{}", q);
}
