use camera_rig::shake::{ShakeAggregator, ShakeKind, CLOCK_START};

#[test]
fn effect_lives_exactly_its_length() {
    let mut agg: ShakeAggregator<u8> = ShakeAggregator::new();
    assert!(agg.trigger_noise(3, 7));
    for tick in 0..3 {
        assert_eq!(agg.len(), 1, "still active at tick {}", tick);
        assert_eq!(agg.effects()[0].age, tick as u32);
        agg.advance();
    }
    assert_eq!(agg.len(), 0);
    agg.advance();
    assert_eq!(agg.len(), 0);
}

#[test]
fn effects_of_different_lengths_expire_in_turn() {
    let mut agg: ShakeAggregator<&str> = ShakeAggregator::new();
    agg.trigger_noise(2, "short");
    agg.trigger_sinusoidal(4, "long");
    agg.trigger_noise(1, "blip");
    agg.advance();
    let names: Vec<&str> = agg.effects().iter().map(|e| e.params).collect();
    assert_eq!(names, vec!["short", "long"]);
    agg.advance();
    let names: Vec<&str> = agg.effects().iter().map(|e| e.params).collect();
    assert_eq!(names, vec!["long"]);
    agg.advance();
    assert_eq!(agg.len(), 1);
    agg.advance();
    assert_eq!(agg.len(), 0);
}

#[test]
fn non_positive_length_adds_nothing() {
    let mut agg: ShakeAggregator<()> = ShakeAggregator::new();
    assert!(!agg.trigger_noise(0, ()));
    assert!(!agg.trigger_sinusoidal(-5, ()));
    assert!(!agg.trigger_rotational(0, ()));
    assert_eq!(agg.len(), 0);
}

#[test]
fn triggers_record_kind_length_and_sign() {
    let mut agg: ShakeAggregator<i32> = ShakeAggregator::new();
    agg.trigger_noise(5, 1);
    agg.trigger_sinusoidal(6, 2);
    let e = &agg.effects()[0];
    assert_eq!((e.kind, e.length, e.age, e.sign, e.params), (ShakeKind::Noise, 5, 0, 1, 1));
    let e = &agg.effects()[1];
    assert_eq!((e.kind, e.length, e.age, e.sign, e.params), (ShakeKind::Sinusoidal, 6, 0, 1, 2));
}

#[test]
fn rotational_kicks_turn_both_ways() {
    let mut agg: ShakeAggregator<()> = ShakeAggregator::new();
    for _ in 0..64 {
        agg.trigger_rotational(10, ());
    }
    let signs: Vec<i32> = agg.effects().iter().map(|e| e.sign).collect();
    assert!(signs.iter().all(|s| *s == 1 || *s == -1));
    assert!(signs.contains(&1));
    assert!(signs.contains(&-1));
    assert!(agg.effects().iter().all(|e| e.kind == ShakeKind::Rotational));
}

#[test]
fn strength_decays_linearly_from_one_to_zero() {
    let mut agg: ShakeAggregator<()> = ShakeAggregator::new();
    agg.trigger_noise(4, ());
    let mut seen = Vec::new();
    while agg.len() > 0 {
        seen.push(agg.effects()[0].strength_fraction());
        agg.advance();
    }
    assert_eq!(seen, vec![(4, 4), (3, 4), (2, 4), (1, 4)]);
}

#[test]
fn rotational_scenario_expires_at_tick_ten() {
    // A kick of magnitude 1 and length 10: full strength at tick 0, gone at tick 10.
    let mut agg: ShakeAggregator<f32> = ShakeAggregator::new();
    agg.trigger_rotational(10, 1.0);
    let rotation = |agg: &ShakeAggregator<f32>| -> f32 {
        agg.effects()
            .iter()
            .filter(|e| e.kind == ShakeKind::Rotational)
            .map(|e| {
                let (n, d) = e.strength_fraction();
                let s = n as f32 / d as f32;
                e.params * e.sign as f32 * s * s * s * 3.0
            })
            .sum()
    };
    let first = rotation(&agg);
    assert!(first != 0.0);
    assert_eq!(first.abs(), 3.0);
    for _ in 0..10 {
        agg.tick_clock();
        agg.advance();
    }
    assert_eq!(rotation(&agg), 0.0);
    agg.tick_clock();
    agg.advance();
    assert_eq!(rotation(&agg), 0.0);
}

#[test]
fn clock_advances_half_a_tick_per_sample() {
    let mut agg: ShakeAggregator<()> = ShakeAggregator::new();
    assert_eq!(CLOCK_START, 10);
    assert_eq!(agg.tick_clock(), 11);
    assert_eq!(agg.tick_clock(), 12);
    agg.trigger_noise(2, ());
    agg.advance();
    assert_eq!(agg.tick_clock(), 13);
}
