use gacha_scan::extract::LogScan;
use gacha_scan::pipeline::{Admission, Outcome, Pipeline};
use gacha_scan::rank::{is_expired, Candidate};
use gacha_scan::timestamp::Timestamp;

fn cv(s: &str) -> Vec<char> {
    s.chars().collect()
}

fn cs(v: &[char]) -> String {
    v.iter().collect()
}

fn ts(h: u32, mi: u32) -> Timestamp {
    Timestamp::new(2024, 6, 1, h, mi, 0).unwrap()
}

fn cand(url: &str, time: Timestamp) -> Candidate {
    Candidate {
        url: cv(url),
        time,
        source: cv("source"),
    }
}

const URL_A: &str = "https://aki-gm-resources.aki-game.net/aki/gacha/index.html#/record?a";
const URL_B: &str = "https://aki-gm-resources.aki-game.net/aki/gacha/index.html#/record?b";

#[test]
fn ranker_selects_maximum_timestamp() {
    let mut p = Pipeline::new();
    p.add_candidate(cand("u1", ts(10, 0)));
    p.add_candidate(cand("u2", ts(10, 5)));
    p.add_candidate(cand("u3", ts(10, 3)));
    match p.conclude(&ts(10, 10)) {
        Outcome::Found { url, time, .. } => {
            assert_eq!(cs(&url), "u2");
            assert_eq!(time, ts(10, 5));
        }
        Outcome::NotFound => panic!("expected a result"),
    }
}

#[test]
fn ranker_tie_keeps_first_seen() {
    let mut p = Pipeline::new();
    p.add_candidate(cand("first", ts(10, 5)));
    p.add_candidate(cand("second", ts(10, 5)));
    match p.conclude(&ts(10, 10)) {
        Outcome::Found { url, .. } => assert_eq!(cs(&url), "first"),
        Outcome::NotFound => panic!("expected a result"),
    }
}

#[test]
fn empty_collection_is_not_found() {
    let p = Pipeline::new();
    assert!(matches!(p.conclude(&ts(10, 0)), Outcome::NotFound));
}

#[test]
fn expiry_boundary_is_strict() {
    let t = ts(12, 0);
    // Exactly thirty minutes: still fresh.
    let at_limit = Timestamp::new(2024, 6, 1, 12, 30, 0).unwrap();
    assert!(!is_expired(&t, &at_limit));
    // One second past the threshold: expired.
    let past = Timestamp::new(2024, 6, 1, 12, 30, 1).unwrap();
    assert!(is_expired(&t, &past));
    // A timestamp in the future is fresh.
    let before = Timestamp::new(2024, 6, 1, 11, 0, 0).unwrap();
    assert!(!is_expired(&t, &before));
}

#[test]
fn visited_directory_not_screened_in_twice() {
    let mut p = Pipeline::new();
    let canon = cv("d:/games/wuthering waves");
    let first = p.screen_root(&cv("D:\\Games\\Wuthering Waves"), Some(&canon), true);
    assert_eq!(first, Admission::Admitted);
    // A different raw spelling with the same canonical path is rejected.
    let second = p.screen_root(&cv("D:/GAMES/wuthering waves/."), Some(&canon), true);
    assert_eq!(second, Admission::RejectedVisited);
}

#[test]
fn uncanonicalized_root_deduplicated_by_raw_string() {
    let mut p = Pipeline::new();
    assert_eq!(p.screen_root(&cv("X:\\weird"), None, true), Admission::Admitted);
    assert_eq!(
        p.screen_root(&cv("X:\\weird"), None, true),
        Admission::RejectedVisited
    );
}

#[test]
fn cloud_sync_root_never_scanned() {
    let mut p = Pipeline::new();
    let raw = cv("C:\\Users\\me\\OneDrive\\Wuthering Waves");
    let canon = cv("c:/users/me/onedrive/wuthering waves");
    assert_eq!(
        p.screen_root(&raw, Some(&canon), true),
        Admission::RejectedCloudSync
    );
    // Case-insensitive, anywhere in the string.
    let shout = cv("C:\\ONEDRIVE2\\game");
    assert_eq!(p.screen_root(&shout, None, true), Admission::RejectedCloudSync);
}

#[test]
fn missing_root_rejected() {
    let mut p = Pipeline::new();
    assert_eq!(
        p.screen_root(&cv("Q:\\nowhere"), None, false),
        Admission::RejectedMissing
    );
}

#[test]
fn scenario_nothing_discovered() {
    // No discovery source yields any directory.
    let p = Pipeline::new();
    match p.conclude(&ts(12, 0)) {
        Outcome::NotFound => {}
        _ => panic!("expected not found"),
    }
}

fn scan_one_root(p: &mut Pipeline, root: &str, line: &str) {
    let raw = cv(root);
    assert_eq!(p.screen_root(&raw, None, true), Admission::Admitted);
    let mut scan = LogScan::new();
    scan.push_line(&cv(line));
    if let Some(c) = scan.finish(None, &raw) {
        p.add_candidate(c);
    }
}

#[test]
fn scenario_single_fresh_match() {
    // One directory, one valid match five minutes old.
    let mut p = Pipeline::new();
    scan_one_root(&mut p, "D:\\WW", &format!("[2024.06.01-11.55.00:000] {}", URL_A));
    match p.conclude(&ts(12, 0)) {
        Outcome::Found { url, time, expired } => {
            assert_eq!(cs(&url), URL_A);
            assert_eq!(time, ts(11, 55));
            assert!(!expired);
        }
        Outcome::NotFound => panic!("expected a result"),
    }
}

#[test]
fn scenario_single_expired_match() {
    // One directory, one valid match forty-five minutes old: the URL is
    // still returned, flagged expired, with its original timestamp.
    let mut p = Pipeline::new();
    scan_one_root(&mut p, "D:\\WW", &format!("[2024.06.01-11.15.00:000] {}", URL_A));
    match p.conclude(&ts(12, 0)) {
        Outcome::Found { url, time, expired } => {
            assert_eq!(cs(&url), URL_A);
            assert_eq!(time, ts(11, 15));
            assert!(expired);
        }
        Outcome::NotFound => panic!("expected a result"),
    }
}

#[test]
fn scenario_two_roots_most_recent_wins() {
    // Two directories, matches ten and forty minutes old: the younger one
    // wins and is fresh; the older is discarded entirely.
    let mut p = Pipeline::new();
    scan_one_root(&mut p, "D:\\WW1", &format!("[2024.06.01-11.50.00:000] {}", URL_A));
    scan_one_root(&mut p, "E:\\WW2", &format!("[2024.06.01-11.20.00:000] {}", URL_B));
    match p.conclude(&ts(12, 0)) {
        Outcome::Found { url, time, expired } => {
            assert_eq!(cs(&url), URL_A);
            assert_eq!(time, ts(11, 50));
            assert!(!expired);
        }
        Outcome::NotFound => panic!("expected a result"),
    }
}
