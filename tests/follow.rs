use camera_rig::follow::{FollowBuffer, BUFFER_CAPACITY};

#[test]
fn push_keeps_newest_first() {
    let mut b: FollowBuffer<u32> = FollowBuffer::new();
    assert!(b.is_empty());
    b.push(1);
    b.push(2);
    b.push(3);
    assert_eq!(b.samples(), &vec![3, 2, 1]);
    assert_eq!(b.len(), 3);
}

#[test]
fn never_more_than_capacity() {
    let mut b: FollowBuffer<u32> = FollowBuffer::new();
    for i in 0..100 {
        b.push(i);
        assert!(b.len() <= BUFFER_CAPACITY);
    }
    assert_eq!(BUFFER_CAPACITY, 20);
    assert!(b.is_full());
    let expected: Vec<u32> = (80..100).rev().collect();
    assert_eq!(b.samples(), &expected);
}

#[test]
fn refill_replaces_history() {
    let mut b: FollowBuffer<(i32, i32)> = FollowBuffer::new();
    for i in 0..13 {
        b.push((i, -i));
    }
    for _ in 0..BUFFER_CAPACITY {
        b.push((100, 200));
    }
    assert_eq!(b.len(), BUFFER_CAPACITY);
    assert!(b.samples().iter().all(|s| *s == (100, 200)));
}

#[test]
fn average_of_identical_samples_is_the_sample() {
    let mut b: FollowBuffer<(f32, f32, f32)> = FollowBuffer::new();
    for _ in 0..BUFFER_CAPACITY {
        b.push((12.5, -3.25, 640.0));
    }
    let n = b.len() as f64;
    let sum = b.samples().iter().fold((0.0f64, 0.0f64, 0.0f64), |a, s| {
        (a.0 + s.0 as f64, a.1 + s.1 as f64, a.2 + s.2 as f64)
    });
    assert_eq!(((sum.0 / n) as f32, (sum.1 / n) as f32, (sum.2 / n) as f32), (12.5, -3.25, 640.0));
}
