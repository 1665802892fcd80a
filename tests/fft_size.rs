use ssstretch::dsp::fft::optimal_size;

#[test]
fn optimal_size_rounds_up_to_power_of_two() {
    assert_eq!(optimal_size(1000), 1024);
    assert_eq!(optimal_size(3), 4);
    assert_eq!(optimal_size(1025), 2048);
}

#[test]
fn optimal_size_keeps_powers_of_two() {
    assert_eq!(optimal_size(1024), 1024);
    assert_eq!(optimal_size(2), 2);
    assert_eq!(optimal_size(1), 1);
}

#[test]
fn optimal_size_of_zero_is_one() {
    assert_eq!(optimal_size(0), 1);
}

#[test]
fn optimal_size_at_the_largest_request() {
    let largest = usize::MAX / 2 + 1;
    assert_eq!(optimal_size(largest), largest);
    assert_eq!(optimal_size(largest - 1), largest);
}
