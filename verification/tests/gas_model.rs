use dive_computer::{gas_rate_in_cl, gas_to_surface_in_cl};

#[test]
fn lib_test_gas_rate_in_cl() {
    assert!(true);
    assert_eq!(gas_rate_in_cl(0), 20);
    assert_eq!(gas_rate_in_cl(10), 40);
}

#[test]
fn dive_computer_test_gas_rate_in_cl() {
    assert!(true);
    assert_eq!(gas_rate_in_cl(1), 22);
    assert_eq!(gas_rate_in_cl(30), 80);
}

#[test]
fn gas_rate_grows_by_two_per_metre() {
    for depth in 0..500u32 {
        assert_eq!(gas_rate_in_cl(depth), 20 + 2 * depth);
    }
}

#[test]
fn gas_rate_at_the_deepest_tracked_depth() {
    assert_eq!(gas_rate_in_cl(2_147_483), 4_294_986);
}

#[test]
fn gas_to_surface_examples() {
    assert_eq!(gas_to_surface_in_cl(0), 0);
    assert_eq!(gas_to_surface_in_cl(1), 80);
    assert_eq!(gas_to_surface_in_cl(2), 168);
    assert_eq!(gas_to_surface_in_cl(10), 1160);
    assert_eq!(gas_to_surface_in_cl(30), 5880);
    assert_eq!(gas_to_surface_in_cl(40), 9440);
}

#[test]
fn gas_to_surface_is_the_sum_of_the_rates() {
    let mut sum = 0u32;
    for depth in 0..300u32 {
        assert_eq!(gas_to_surface_in_cl(depth), sum);
        sum += gas_rate_in_cl(depth) * 4;
    }
}

#[test]
fn gas_to_surface_closed_form() {
    for depth in [0u64, 1, 7, 214, 215, 1000, 32_758] {
        let expected = 4 * depth * depth + 76 * depth;
        assert_eq!(u64::from(gas_to_surface_in_cl(depth as u32)), expected);
    }
}

#[test]
fn gas_to_surface_never_decreases() {
    let mut last = 0u32;
    for depth in 0..400u32 {
        let gas = gas_to_surface_in_cl(depth);
        assert!(gas >= last);
        last = gas;
    }
}

#[test]
fn gas_to_surface_at_the_deepest_start_that_fits() {
    assert_eq!(gas_to_surface_in_cl(32_758), 4_294_835_864);
}
