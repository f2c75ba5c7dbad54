use remote_uci::caps::{clamp_cap, default_hash_budget, negotiate_parameters, operator_cap};

#[test]
fn clamp_takes_minimum_of_three() {
    assert_eq!(clamp_cap(8, 16, 4), 4);
    assert_eq!(clamp_cap(2, 16, 512), 2);
    assert_eq!(clamp_cap(32, 6, 512), 6);
    assert_eq!(clamp_cap(7, 7, 7), 7);
}

#[test]
fn clamp_never_exceeds_any_input() {
    let cases = [(1u32, 2u32, 3u32), (3, 2, 1), (2, 3, 1), (0, 0, 0), (u32::MAX, 1, u32::MAX)];
    for (a, b, c) in cases {
        let r = clamp_cap(a, b, c);
        assert!(r <= a && r <= b && r <= c);
        assert!(r == a || r == b || r == c);
    }
}

#[test]
fn operator_cap_defaults_to_host() {
    assert_eq!(operator_cap(None, 12), 12);
    assert_eq!(operator_cap(Some(4), 12), 4);
    assert_eq!(operator_cap(Some(64), 12), 12);
}

#[test]
fn negotiate_parameters_clamps_both_resources() {
    let p = negotiate_parameters(Some(4), Some(1024), 16, 448);
    assert_eq!(p.max_threads, 4);
    assert_eq!(p.max_hash, 448);
    let p = negotiate_parameters(None, None, 16, 448);
    assert_eq!(p.max_threads, 16);
    assert_eq!(p.max_hash, 448);
    let p = negotiate_parameters(Some(0), Some(0), 16, 448);
    assert_eq!(p.max_threads, 1);
    assert_eq!(p.max_hash, 1);
}

#[test]
fn hash_budget_is_half_the_next_power_of_two() {
    assert_eq!(default_hash_budget(0), 0);
    assert_eq!(default_hash_budget(1), 0);
    assert_eq!(default_hash_budget(2), 1);
    assert_eq!(default_hash_budget(3), 2);
    assert_eq!(default_hash_budget(1024), 512);
    assert_eq!(default_hash_budget(1025), 1024);
    assert_eq!(default_hash_budget(48 * 1024), 32 * 1024);
}
