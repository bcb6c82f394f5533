use gacha_scan::extract::{find_url, parse_leading_ts, LogScan};
use gacha_scan::timestamp::Timestamp;

fn cv(s: &str) -> Vec<char> {
    s.chars().collect()
}

fn cs(v: &[char]) -> String {
    v.iter().collect()
}

const URL_MAIN: &str = "https://aki-gm-resources.aki-game.net/aki/gacha/index.html#/record?id=1";
const URL_OVERSEA: &str =
    "https://aki-gm-resources-oversea.aki-game.com/aki/gacha/index.html#/record?svr=us";

#[test]
fn url_extracted_up_to_whitespace() {
    let line = cv(&format!("[2024.06.01-12.00.00:123] info {} trailing", URL_MAIN));
    let got = find_url(&line).expect("url expected");
    assert_eq!(cs(&got), URL_MAIN);
}

#[test]
fn url_at_end_of_line() {
    let line = cv(&format!("prefix {}", URL_OVERSEA));
    let got = find_url(&line).expect("url expected");
    assert_eq!(cs(&got), URL_OVERSEA);
}

#[test]
fn url_leftmost_match_wins_within_line() {
    let line = cv(&format!("{} {}", URL_OVERSEA, URL_MAIN));
    let got = find_url(&line).expect("url expected");
    assert_eq!(cs(&got), URL_OVERSEA);
}

#[test]
fn url_wrong_host_rejected() {
    let line = cv("see https://aki-gm-resources.aki-game.org/aki/gacha/index.html#/record?id=1");
    assert!(find_url(&line).is_none());
}

#[test]
fn url_wrong_path_rejected() {
    let line = cv("see https://aki-gm-resources.aki-game.net/aki/gacha/index.html#/history");
    assert!(find_url(&line).is_none());
}

#[test]
fn leading_stamp_parsed() {
    let line = cv("[2024.06.01-12.30.45:123] anything");
    let t = parse_leading_ts(&line).expect("stamp expected");
    assert_eq!(
        (t.year, t.month, t.day, t.hour, t.minute, t.second),
        (2024, 6, 1, 12, 30, 45)
    );
}

#[test]
fn stamp_not_at_line_start_rejected() {
    let line = cv(" [2024.06.01-12.30.45:123] anything");
    assert!(parse_leading_ts(&line).is_none());
}

#[test]
fn stamp_invalid_month_rejected() {
    let line = cv("[2024.13.01-12.30.45:123] anything");
    assert!(parse_leading_ts(&line).is_none());
}

#[test]
fn stamp_leap_day_only_in_leap_years() {
    assert!(parse_leading_ts(&cv("[2024.02.29-00.00.00:000] x")).is_some());
    assert!(parse_leading_ts(&cv("[2023.02.29-00.00.00:000] x")).is_none());
}

#[test]
fn stamp_malformed_shape_rejected() {
    assert!(parse_leading_ts(&cv("[2024-06-01 12:30:45] x")).is_none());
    assert!(parse_leading_ts(&cv("[2024.06.01-12.30.45] x")).is_none());
}

#[test]
fn last_match_wins_across_lines() {
    // Matches on the third and the tenth line; the tenth is later in the
    // file and must win.
    let mut scan = LogScan::new();
    for i in 1..=11 {
        let line = if i == 3 {
            format!("[2024.06.01-10.00.00:000] {}?first", URL_MAIN)
        } else if i == 10 {
            format!("[2024.06.01-11.00.00:000] {}?second", URL_OVERSEA)
        } else {
            format!("[2024.06.01-10.30.00:000] line {}", i)
        };
        scan.push_line(&cv(&line));
    }
    let c = scan.finish(None, &cv("root")).expect("candidate expected");
    assert_eq!(cs(&c.url), format!("{}?second", URL_OVERSEA));
    assert_eq!((c.time.hour, c.time.minute), (11, 0));
    assert_eq!(cs(&c.source), "root");
}

#[test]
fn url_line_without_stamp_keeps_earlier_stamp() {
    let mut scan = LogScan::new();
    scan.push_line(&cv(&format!("[2024.06.01-09.00.00:000] {}", URL_MAIN)));
    scan.push_line(&cv(&format!("no stamp here {}?later", URL_MAIN)));
    let c = scan.finish(None, &cv("root")).expect("candidate expected");
    assert_eq!(cs(&c.url), format!("{}?later", URL_MAIN));
    assert_eq!(c.time.hour, 9);
}

#[test]
fn fallback_to_modification_time_when_no_stamp() {
    let mtime = Timestamp::new(2024, 6, 1, 8, 15, 0).unwrap();
    let mut scan = LogScan::new();
    scan.push_line(&cv(&format!("plain line with {}", URL_MAIN)));
    let c = scan
        .finish(Some(mtime), &cv("root"))
        .expect("candidate expected");
    assert_eq!(c.time, mtime);
}

#[test]
fn fallback_to_epoch_when_nothing_available() {
    let mut scan = LogScan::new();
    scan.push_line(&cv(&format!("plain line with {}", URL_MAIN)));
    let c = scan.finish(None, &cv("root")).expect("candidate expected");
    assert_eq!(c.time, Timestamp::epoch());
}

#[test]
fn no_url_no_candidate() {
    let mut scan = LogScan::new();
    scan.push_line(&cv("[2024.06.01-12.00.00:000] nothing relevant"));
    assert!(scan.finish(None, &cv("root")).is_none());
}
