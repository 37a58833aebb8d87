use rusty_rich::measure::{combine_measurements, Measurement};

#[test]
fn test_measurement_clamp() {
    let m = Measurement::new(10, 100).with_maximum(50);
    assert_eq!(m.minimum, 10);
    assert_eq!(m.maximum, 50);
}

#[test]
fn test_measurement_with_minimum() {
    let m = Measurement::new(10, 100).with_minimum(20);
    assert_eq!(m.minimum, 20);
    assert_eq!(m.maximum, 100);
}

#[test]
fn test_combine_measurements_takes_widest() {
    let ms = vec![Measurement::new(3, 10), Measurement::new(5, 8)];
    let m = combine_measurements(&ms);
    assert_eq!(m.minimum, 5);
    assert_eq!(m.maximum, 10);
}
