use donkey_make::execute::format_duration;
use std::time::{Duration, SystemTime};

#[test]
fn format_duration_5ms() {
    let tic = SystemTime::now();
    let toc = tic + Duration::from_millis(5);
    let micros = toc.duration_since(tic).unwrap().as_micros() as u64;
    assert_eq!(format_duration(micros), "5.000ms");
}

#[test]
fn format_duration_15ms() {
    let tic = SystemTime::now();
    let toc = tic + Duration::from_millis(15);
    let micros = toc.duration_since(tic).unwrap().as_micros() as u64;
    assert_eq!(format_duration(micros), "15ms");
}

#[test]
fn format_duration_2s() {
    let tic = SystemTime::now();
    let toc = tic + Duration::from_secs(2);
    let micros = toc.duration_since(tic).unwrap().as_micros() as u64;
    assert_eq!(format_duration(micros), "2.000s");
}

#[test]
fn format_duration_200s() {
    let tic = SystemTime::now();
    let toc = tic + Duration::from_secs(200);
    let micros = toc.duration_since(tic).unwrap().as_micros() as u64;
    assert_eq!(format_duration(micros), "200s");
}

#[test]
fn format_duration_zero_clamps() {
    assert_eq!(format_duration(0), "0.000ms");
}

#[test]
fn format_duration_boundaries() {
    assert_eq!(format_duration(9_999), "9.999ms");
    assert_eq!(format_duration(10_000), "10ms");
    assert_eq!(format_duration(999_999), "999ms");
    assert_eq!(format_duration(1_000_000), "1.000s");
    assert_eq!(format_duration(99_999_999), "99.999s");
    assert_eq!(format_duration(100_000_000), "100s");
}
