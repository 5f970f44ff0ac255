use hypixel_watch::level::calculate_level;

#[test]
fn negative_experience_is_base_level() {
    assert_eq!(calculate_level(-1), 1);
    assert_eq!(calculate_level(-5000), 1);
    assert_eq!(calculate_level(i32::MIN), 1);
}

#[test]
fn zero_experience_is_base_level() {
    assert_eq!(calculate_level(0), 1);
}

#[test]
fn level_boundaries() {
    // level 2 begins at 1250*4 + 6250*2 - 7500 = 10000
    assert_eq!(calculate_level(9999), 1);
    assert_eq!(calculate_level(10000), 2);
    // level 3 begins at 1250*9 + 6250*3 - 7500 = 22500
    assert_eq!(calculate_level(22499), 2);
    assert_eq!(calculate_level(22500), 3);
    // level 4 begins at 1250*16 + 6250*4 - 7500 = 37500
    assert_eq!(calculate_level(37499), 3);
    assert_eq!(calculate_level(37500), 4);
}

#[test]
fn level_matches_closed_form() {
    // floor(sqrt(12.25 + exp/1250) - 2.5), evaluated exactly
    for exp in [0, 1, 500, 10000, 123456, 1000000, 5000000] {
        let closed = ((12.25f64 + exp as f64 / 1250.0).sqrt() - 2.5).floor() as i32;
        assert_eq!(calculate_level(exp), closed.max(1));
    }
}

#[test]
fn level_is_monotone() {
    let mut prev = calculate_level(0);
    for exp in (0..2_000_000).step_by(7919) {
        let cur = calculate_level(exp);
        assert!(cur >= prev);
        prev = cur;
    }
}

#[test]
fn level_of_max_experience() {
    assert_eq!(calculate_level(i32::MAX), 1308);
}
