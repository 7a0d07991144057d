use srch::clock::Stopwatch;

#[test]
fn millis_until_rounds_down_to_whole_milliseconds() {
    let watch = Stopwatch::started_at(1_000_000);
    assert_eq!(watch.millis_until(1_000_000), Some(0));
    assert_eq!(watch.millis_until(1_999_999), Some(0));
    assert_eq!(watch.millis_until(2_000_000), Some(1));
    assert_eq!(watch.millis_until(3_500_000), Some(2));
    assert_eq!(Stopwatch::started_at(0).millis_until(u64::MAX), Some(18_446_744_073_709));
}

#[test]
fn a_reading_before_the_start_gives_nothing() {
    let watch = Stopwatch::started_at(5_000_000);
    assert_eq!(watch.millis_until(4_999_999), None);
    assert_eq!(watch.millis_until(0), None);
}

#[test]
fn a_started_watch_reads_the_clock() {
    let watch = Stopwatch::start();
    let first = watch.elapsed_millis();
    let second = watch.elapsed_millis();
    assert!(first.is_some());
    assert!(second.is_some());
    assert!(first.unwrap() <= second.unwrap());
}
