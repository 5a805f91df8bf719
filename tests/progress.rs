use companion_core::progress::{
    parse_percent, progress_events, stream_progress, PercentExtractor, ProgressEmitter,
};

fn lines(xs: &[&str]) -> Vec<String> {
    xs.iter().map(|s| s.to_string()).collect()
}

#[test]
fn duplicate_progress_is_suppressed() {
    let ex = PercentExtractor::new();
    let out = stream_progress(&ex, &lines(&["10%", "45%", "45%", "90%"]));
    assert_eq!(out, vec![10, 45, 90, 100]);
    let values = vec![Some(10), Some(45), Some(45), Some(90)];
    assert_eq!(progress_events(&values), vec![10, 45, 90, 100]);
}

#[test]
fn silent_stream_reports_completion_once() {
    let ex = PercentExtractor::new();
    assert_eq!(stream_progress(&ex, &lines(&["pulling manifest", "writing layer", "success"])), vec![100]);
    assert_eq!(stream_progress(&ex, &Vec::new()), vec![100]);
    assert_eq!(progress_events(&vec![None, None]), vec![100]);
}

#[test]
fn explicit_hundred_is_not_repeated() {
    let ex = PercentExtractor::new();
    assert_eq!(stream_progress(&ex, &lines(&["50%", "100%", "100%"])), vec![50, 100]);
}

#[test]
fn falling_and_out_of_range_values_are_ignored() {
    let ex = PercentExtractor::new();
    let out = stream_progress(&ex, &lines(&["copying 30% done", "20%", "0%", "150%", "999%", "31%"]));
    assert_eq!(out, vec![30, 31, 100]);
}

#[test]
fn extractor_reads_first_mark() {
    let ex = PercentExtractor::new();
    assert_eq!(ex.extract("pulling 37% of 2 GB"), Some(37));
    assert_eq!(ex.extract("x7%y8%"), Some(7));
    assert_eq!(ex.extract("007%"), Some(7));
    assert_eq!(ex.extract("12 % then 3%"), Some(3));
    assert_eq!(ex.extract("no mark"), None);
    assert_eq!(ex.extract("%"), None);
    assert_eq!(ex.extract("5 %"), None);
    assert_eq!(ex.extract("101%"), None);
    assert_eq!(ex.extract("\u{0663}%"), None);
}

#[test]
fn parse_percent_range() {
    assert_eq!(parse_percent("0"), Some(0));
    assert_eq!(parse_percent("100"), Some(100));
    assert_eq!(parse_percent("0100"), Some(100));
    assert_eq!(parse_percent("101"), None);
    assert_eq!(parse_percent("99999999999999999999"), None);
    assert_eq!(parse_percent(""), None);
    assert_eq!(parse_percent("4a"), None);
    assert_eq!(parse_percent("+4"), None);
}

#[test]
fn emitter_tracks_last_value() {
    let ex = PercentExtractor::new();
    let mut e = ProgressEmitter::new();
    assert_eq!(e.last(), 0);
    assert_eq!(e.on_line(&ex, "10%"), Some(10));
    assert_eq!(e.on_line(&ex, "10%"), None);
    assert_eq!(e.offer(Some(5)), None);
    assert_eq!(e.offer(Some(200)), None);
    assert_eq!(e.offer(None), None);
    assert_eq!(e.last(), 10);
    assert_eq!(e.finish(), Some(100));
    assert_eq!(e.finish(), None);
    assert_eq!(e.last(), 100);
}
