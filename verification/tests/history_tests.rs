use embassy_st7789v_plot::{SampleRing, PLOT_HISTORY_LIMIT};

fn samples<const N: usize>(r: &SampleRing<f32, N>) -> Vec<f32> {
    (0..r.len()).map(|i| r.get_sample(i)).collect()
}

#[test]
fn new_history_is_empty() {
    let r: SampleRing<f32, 100> = SampleRing::new(0.0);
    assert_eq!(r.len(), 0);
}

#[test]
fn push_keeps_order_until_full() {
    let mut r: SampleRing<f32, 100> = SampleRing::new(0.0);
    r.push(50.0);
    r.push(55.5);
    r.push(45.2);
    assert_eq!(samples(&r), vec![50.0, 55.5, 45.2]);
}

#[test]
fn full_history_drops_oldest() {
    let mut r: SampleRing<f32, 3> = SampleRing::new(0.0);
    for v in [1.0, 2.0, 3.0, 4.0, 5.0] {
        r.push(v);
    }
    assert_eq!(r.len(), 3);
    assert_eq!(samples(&r), vec![3.0, 4.0, 5.0]);
}

#[test]
fn hundred_slot_history_after_wrapping() {
    let mut r: SampleRing<f32, 100> = SampleRing::new(0.0);
    for i in 1..=103 {
        r.push(i as f32);
    }
    assert_eq!(r.len(), 100);
    assert_eq!(r.get_sample(0), 4.0);
    assert_eq!(r.get_sample(99), 103.0);
}

#[test]
fn clear_forgets_every_sample() {
    let mut r: SampleRing<f32, 100> = SampleRing::new(0.0);
    r.push(50.0);
    r.clear();
    assert_eq!(r.len(), 0);
    r.push(7.0);
    assert_eq!(samples(&r), vec![7.0]);
}

#[test]
fn single_slot_history_holds_the_last_value() {
    let mut r: SampleRing<u32, 1> = SampleRing::new(0);
    r.push(9);
    r.push(11);
    assert_eq!(r.len(), 1);
    assert_eq!(r.get_sample(0), 11);
}

#[test]
fn history_of_the_largest_capacity() {
    let mut r: SampleRing<i32, PLOT_HISTORY_LIMIT> = SampleRing::new(0);
    for i in 0..1000 {
        r.push(i);
    }
    assert_eq!(r.len(), 240);
    assert_eq!(r.get_sample(0), 760);
    assert_eq!(r.get_sample(239), 999);
}
