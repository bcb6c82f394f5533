//! The log-line grammar and the per-file extraction scan.
//!
//! A line yields a URL when it contains the fixed gacha-record pattern: the
//! scheme and host head, an optional `-oversea` host infix, one of two
//! top-level domains, and the record path, extended greedily up to the next
//! whitespace character.  A line yields a timestamp when it begins with a
//! bracketed `[YYYY.MM.DD-HH.MM.SS:mmm]` stamp naming a real calendar
//! moment.  A file is scanned line by line and the last URL match wins,
//! together with the last valid stamp seen on a URL line.
use vstd::prelude::*;
use vstd::slice::slice_to_vec;
use crate::rank::Candidate;
use crate::text::{chars_of, copy_range, matches_at, matches_lit_at};
use crate::timestamp::{valid_fields, Timestamp};

verus! {

pub open spec fn u_head() -> Seq<char> {
    "https://aki-gm-resources"@
}

pub open spec fn u_oversea() -> Seq<char> {
    "-oversea"@
}

pub open spec fn u_mid() -> Seq<char> {
    ".aki-game."@
}

pub open spec fn u_net() -> Seq<char> {
    "net"@
}

pub open spec fn u_com() -> Seq<char> {
    "com"@
}

pub open spec fn u_tail() -> Seq<char> {
    "/aki/gacha/index.html#/record"@
}

/// Whitespace as the scan understands it: the Unicode `White_Space` set.
pub open spec fn is_space(c: char) -> bool {
    c == ' ' || c == '\u{9}' || c == '\u{a}' || c == '\u{b}' || c == '\u{c}' || c == '\u{d}'
        || c == '\u{85}' || c == '\u{a0}' || c == '\u{1680}' || ('\u{2000}' <= c && c
        <= '\u{200a}') || c == '\u{2028}' || c == '\u{2029}' || c == '\u{202f}' || c == '\u{205f}'
        || c == '\u{3000}'
}

pub fn is_space_exec(c: char) -> (r: bool)
    ensures
        r == is_space(c),
{
    c == ' ' || c == '\u{9}' || c == '\u{a}' || c == '\u{b}' || c == '\u{c}' || c == '\u{d}'
        || c == '\u{85}' || c == '\u{a0}' || c == '\u{1680}' || ('\u{2000}' <= c && c
        <= '\u{200a}') || c == '\u{2028}' || c == '\u{2029}' || c == '\u{202f}' || c == '\u{205f}'
        || c == '\u{3000}'
}

/// Index just past the URL's fixed part when host suffix and record path
/// begin at `j`.
pub open spec fn host_end_at(s: Seq<char>, j: int) -> Option<int> {
    if matches_at(s, j, u_mid()) {
        let k = j + u_mid().len();
        if matches_at(s, k, u_net()) && matches_at(s, k + u_net().len(), u_tail()) {
            Some(k + u_net().len() + u_tail().len())
        } else if matches_at(s, k, u_com()) && matches_at(s, k + u_com().len(), u_tail()) {
            Some(k + u_com().len() + u_tail().len())
        } else {
            None
        }
    } else {
        None
    }
}

/// Index just past the URL's fixed part when the whole pattern occurs at `i`.
pub open spec fn url_fixed_end_at(s: Seq<char>, i: int) -> Option<int> {
    if matches_at(s, i, u_head()) {
        let j = i + u_head().len();
        if matches_at(s, j, u_oversea()) && host_end_at(s, j + u_oversea().len()) is Some {
            host_end_at(s, j + u_oversea().len())
        } else {
            host_end_at(s, j)
        }
    } else {
        None
    }
}

/// First whitespace character at or after `from`, or the end of the line.
pub open spec fn nonspace_end(s: Seq<char>, from: int) -> int
    decreases s.len() - from,
{
    if from >= s.len() {
        s.len() as int
    } else if is_space(s[from]) {
        from
    } else {
        nonspace_end(s, from + 1)
    }
}

/// Leftmost index at or after `from` where the fixed pattern occurs.
pub open spec fn first_url_start(s: Seq<char>, from: int) -> Option<int>
    decreases s.len() - from,
{
    if from >= s.len() {
        None
    } else if url_fixed_end_at(s, from) is Some {
        Some(from)
    } else {
        first_url_start(s, from + 1)
    }
}

/// The URL a line yields: the leftmost occurrence of the fixed pattern,
/// extended greedily to the next whitespace.
pub open spec fn line_url(s: Seq<char>) -> Option<Seq<char>> {
    match first_url_start(s, 0) {
        Some(i) => Some(s.subrange(i, nonspace_end(s, url_fixed_end_at(s, i).unwrap()))),
        None => None,
    }
}

proof fn lemma_first_url_none(s: Seq<char>, from: int)
    requires
        forall|j: int| from <= j < s.len() ==> url_fixed_end_at(s, j) is None,
    ensures
        first_url_start(s, from) is None,
    decreases s.len() - from,
{
    if from < s.len() {
        lemma_first_url_none(s, from + 1);
    }
}

proof fn lemma_first_url_some(s: Seq<char>, from: int, i: int)
    requires
        0 <= from <= i < s.len(),
        url_fixed_end_at(s, i) is Some,
        forall|j: int| from <= j < i ==> url_fixed_end_at(s, j) is None,
    ensures
        first_url_start(s, from) == Some(i),
    decreases i - from,
{
    if from < i {
        lemma_first_url_some(s, from + 1, i);
    }
}

/// The patterns of the URL grammar, built once per scan.
struct UrlPats {
    head: Vec<char>,
    oversea: Vec<char>,
    mid: Vec<char>,
    net: Vec<char>,
    com: Vec<char>,
    tail: Vec<char>,
}

impl UrlPats {
    spec fn wf(self) -> bool {
        self.head@ == u_head() && self.oversea@ == u_oversea() && self.mid@ == u_mid()
            && self.net@ == u_net() && self.com@ == u_com() && self.tail@ == u_tail()
    }

    fn new() -> (r: UrlPats)
        ensures
            r.wf(),
    {
        UrlPats {
            head: chars_of("https://aki-gm-resources"),
            oversea: chars_of("-oversea"),
            mid: chars_of(".aki-game."),
            net: chars_of("net"),
            com: chars_of("com"),
            tail: chars_of("/aki/gacha/index.html#/record"),
        }
    }
}

fn host_end_exec(s: &[char], j: usize, p: &UrlPats) -> (r: Option<usize>)
    requires
        p.wf(),
    ensures
        match r {
            Some(e) => host_end_at(s@, j as int) == Some(e as int) && j <= e <= s@.len(),
            None => host_end_at(s@, j as int) is None,
        },
{
    let slen = s.len();
    assert(slen == s@.len());
    if matches_lit_at(s, j, p.mid.as_slice()) {
        let k = j + p.mid.len();
        if matches_lit_at(s, k, p.net.as_slice()) && matches_lit_at(
            s,
            k + p.net.len(),
            p.tail.as_slice(),
        ) {
            Some(k + p.net.len() + p.tail.len())
        } else if matches_lit_at(s, k, p.com.as_slice()) && matches_lit_at(
            s,
            k + p.com.len(),
            p.tail.as_slice(),
        ) {
            Some(k + p.com.len() + p.tail.len())
        } else {
            None
        }
    } else {
        None
    }
}

fn url_fixed_end_exec(s: &[char], i: usize, p: &UrlPats) -> (r: Option<usize>)
    requires
        p.wf(),
    ensures
        match r {
            Some(e) => url_fixed_end_at(s@, i as int) == Some(e as int) && i <= e <= s@.len(),
            None => url_fixed_end_at(s@, i as int) is None,
        },
{
    let slen = s.len();
    assert(slen == s@.len());
    if matches_lit_at(s, i, p.head.as_slice()) {
        let j = i + p.head.len();
        if matches_lit_at(s, j, p.oversea.as_slice()) {
            match host_end_exec(s, j + p.oversea.len(), p) {
                Some(e) => Some(e),
                None => host_end_exec(s, j, p),
            }
        } else {
            host_end_exec(s, j, p)
        }
    } else {
        None
    }
}

/// Extracts the URL the line yields, if any.
pub fn find_url(line: &[char]) -> (r: Option<Vec<char>>)
    ensures
        match r {
            Some(u) => line_url(line@) == Some(u@),
            None => line_url(line@) is None,
        },
{
    let p = UrlPats::new();
    let mut i: usize = 0;
    while i < line.len()
        invariant
            p.wf(),
            i <= line.len(),
            forall|j: int| 0 <= j < i ==> url_fixed_end_at(line@, j) is None,
        decreases line.len() - i,
    {
        match url_fixed_end_exec(line, i, &p) {
            Some(e) => {
                proof {
                    lemma_first_url_some(line@, 0, i as int);
                }
                let mut k: usize = e;
                while k < line.len() && !is_space_exec(line[k])
                    invariant
                        e <= k <= line.len(),
                        nonspace_end(line@, e as int) == nonspace_end(line@, k as int),
                    decreases line.len() - k,
                {
                    k = k + 1;
                }
                assert(nonspace_end(line@, e as int) == k as int);
                let u = copy_range(line, i, k);
                return Some(u);
            },
            None => {},
        }
        i = i + 1;
    }
    proof {
        lemma_first_url_none(line@, 0);
    }
    None
}

pub open spec fn is_digit(c: char) -> bool {
    '0' <= c && c <= '9'
}

pub open spec fn digit_val(c: char) -> int {
    c as int - '0' as int
}

pub open spec fn digits_at(s: Seq<char>, i: int, n: int) -> bool {
    forall|j: int| i <= j < i + n ==> is_digit(#[trigger] s[j])
}

pub open spec fn num2(s: Seq<char>, i: int) -> int {
    10 * digit_val(s[i]) + digit_val(s[i + 1])
}

pub open spec fn num4(s: Seq<char>, i: int) -> int {
    1000 * digit_val(s[i]) + 100 * digit_val(s[i + 1]) + 10 * digit_val(s[i + 2]) + digit_val(
        s[i + 3],
    )
}

/// The line starts with a bracketed stamp of the right shape.
pub open spec fn ts_shape(s: Seq<char>) -> bool {
    s.len() >= 25 && s[0] == '[' && digits_at(s, 1, 4) && s[5] == '.' && digits_at(s, 6, 2)
        && s[8] == '.' && digits_at(s, 9, 2) && s[11] == '-' && digits_at(s, 12, 2) && s[14] == '.'
        && digits_at(s, 15, 2) && s[17] == '.' && digits_at(s, 18, 2) && s[20] == ':' && digits_at(
        s,
        21,
        3,
    ) && s[24] == ']'
}

/// The timestamp a line yields: the leading bracketed stamp, if it is
/// well-shaped and names a real calendar moment.
pub open spec fn line_ts(s: Seq<char>) -> Option<Timestamp> {
    if ts_shape(s) && valid_fields(
        num4(s, 1),
        num2(s, 6),
        num2(s, 9),
        num2(s, 12),
        num2(s, 15),
        num2(s, 18),
    ) {
        Some(
            Timestamp {
                year: num4(s, 1) as u32,
                month: num2(s, 6) as u32,
                day: num2(s, 9) as u32,
                hour: num2(s, 12) as u32,
                minute: num2(s, 15) as u32,
                second: num2(s, 18) as u32,
            },
        )
    } else {
        None
    }
}

fn is_digit_exec(c: char) -> (r: bool)
    ensures
        r == is_digit(c),
{
    '0' <= c && c <= '9'
}

fn digit_exec(c: char) -> (r: u32)
    requires
        is_digit(c),
    ensures
        r == digit_val(c),
        r <= 9,
{
    c as u32 - '0' as u32
}

fn all_digits(s: &[char], i: usize, n: usize) -> (r: bool)
    requires
        i + n <= s@.len(),
    ensures
        r == digits_at(s@, i as int, n as int),
{
    let slen = s.len();
    assert(slen == s@.len());
    let mut k: usize = 0;
    while k < n
        invariant
            slen == s@.len(),
            i + n <= slen,
            k <= n,
            forall|j: int| i <= j < i + k ==> is_digit(#[trigger] s@[j]),
        decreases n - k,
    {
        if !is_digit_exec(s[i + k]) {
            return false;
        }
        k = k + 1;
    }
    true
}

fn num2_exec(s: &[char], i: usize) -> (r: u32)
    requires
        i + 2 <= s@.len(),
        digits_at(s@, i as int, 2),
    ensures
        r == num2(s@, i as int),
        r <= 99,
{
    10 * digit_exec(s[i]) + digit_exec(s[i + 1])
}

fn num4_exec(s: &[char], i: usize) -> (r: u32)
    requires
        i + 4 <= s@.len(),
        digits_at(s@, i as int, 4),
    ensures
        r == num4(s@, i as int),
        r <= 9999,
{
    1000 * digit_exec(s[i]) + 100 * digit_exec(s[i + 1]) + 10 * digit_exec(s[i + 2]) + digit_exec(
        s[i + 3],
    )
}

/// Parses the leading bracketed stamp of a line, if it is present, well
/// shaped and names a real calendar moment.
pub fn parse_leading_ts(line: &[char]) -> (r: Option<Timestamp>)
    ensures
        r == line_ts(line@),
{
    if line.len() < 25 {
        return None;
    }
    let shape: bool = line[0] == '[' && all_digits(line, 1, 4) && line[5] == '.' && all_digits(
        line,
        6,
        2,
    ) && line[8] == '.' && all_digits(line, 9, 2) && line[11] == '-' && all_digits(line, 12, 2)
        && line[14] == '.' && all_digits(line, 15, 2) && line[17] == '.' && all_digits(line, 18, 2)
        && line[20] == ':' && all_digits(line, 21, 3) && line[24] == ']';
    if !shape {
        return None;
    }
    let y = num4_exec(line, 1);
    let mo = num2_exec(line, 6);
    let d = num2_exec(line, 9);
    let h = num2_exec(line, 12);
    let mi = num2_exec(line, 15);
    let s = num2_exec(line, 18);
    Timestamp::new(y as i64, mo, d, h, mi, s)
}

/// One step of the scan: a URL match overwrites the running URL, and a valid
/// leading stamp on the same line overwrites the running timestamp.
pub open spec fn scan_step(
    st: (Option<Seq<char>>, Option<Timestamp>),
    l: Seq<char>,
) -> (Option<Seq<char>>, Option<Timestamp>) {
    match line_url(l) {
        Some(u) => (
            Some(u),
            match line_ts(l) {
                Some(t) => Some(t),
                None => st.1,
            },
        ),
        None => st,
    }
}

/// The running state after scanning the given lines in order.
pub open spec fn scan_lines(lines: Seq<Seq<char>>) -> (Option<Seq<char>>, Option<Timestamp>)
    decreases lines.len(),
{
    if lines.len() == 0 {
        (None::<Seq<char>>, None::<Timestamp>)
    } else {
        scan_step(scan_lines(lines.drop_last()), lines.last())
    }
}

/// Any timestamp the scan retains was parsed from a line, so it is valid.
pub proof fn lemma_scan_ts_valid(lines: Seq<Seq<char>>)
    ensures
        scan_lines(lines).1 matches Some(t) ==> t.valid(),
    decreases lines.len(),
{
    if lines.len() > 0 {
        lemma_scan_ts_valid(lines.drop_last());
    }
}

pub open spec fn opt_chars_view(o: Option<Vec<char>>) -> Option<Seq<char>> {
    match o {
        Some(v) => Some(v@),
        None => None,
    }
}

/// A running scan of one log file: the single mutable slot that realises
/// last-match-wins without buffering the file.
pub struct LogScan {
    url: Option<Vec<char>>,
    time: Option<Timestamp>,
    lines: Ghost<Seq<Seq<char>>>,
}

impl LogScan {
    /// The lines fed so far.
    pub closed spec fn fed(self) -> Seq<Seq<char>> {
        self.lines@
    }

    pub closed spec fn wf(self) -> bool {
        opt_chars_view(self.url) == scan_lines(self.lines@).0 && self.time == scan_lines(
            self.lines@,
        ).1
    }

    pub fn new() -> (r: LogScan)
        ensures
            r.wf(),
            r.fed() == Seq::<Seq<char>>::empty(),
    {
        LogScan { url: None, time: None, lines: Ghost(Seq::empty()) }
    }

    /// Feeds the next line of the file, in original order.
    pub fn push_line(&mut self, line: &[char])
        requires
            old(self).wf(),
        ensures
            final(self).wf(),
            final(self).fed() == old(self).fed().push(line@),
    {
        match find_url(line) {
            Some(u) => {
                self.url = Some(u);
                match parse_leading_ts(line) {
                    Some(t) => {
                        self.time = Some(t);
                    },
                    None => {},
                }
            },
            None => {},
        }
        proof {
            self.lines@ = self.lines@.push(line@);
            assert(self.lines@.drop_last() =~= old(self).lines@);
            assert(self.lines@.last() == line@);
            assert(scan_lines(self.lines@) == scan_step(
                scan_lines(old(self).lines@),
                line@,
            ));
        }
    }

    /// Closes the scan.  When a URL was seen, the candidate carries the last
    /// valid stamp, else the given fallback (the file's modification time),
    /// else the epoch sentinel.
    pub fn finish(self, fallback: Option<Timestamp>, source: &[char]) -> (r: Option<Candidate>)
        requires
            self.wf(),
            fallback matches Some(f) ==> f.valid(),
        ensures
            r is Some <==> scan_lines(self.fed()).0 is Some,
            r matches Some(c) ==> Some(c.url@) == scan_lines(self.fed()).0 && c.source@ == source@
                && c.time.valid() && c.time == (match scan_lines(self.fed()).1 {
                Some(t) => t,
                None => match fallback {
                    Some(f) => f,
                    None => Timestamp::epoch_spec(),
                },
            }),
    {
        proof {
            lemma_scan_ts_valid(self.lines@);
        }
        match self.url {
            None => None,
            Some(u) => {
                let t: Timestamp = match self.time {
                    Some(t) => t,
                    None => match fallback {
                        Some(f) => f,
                        None => Timestamp::epoch(),
                    },
                };
                Some(Candidate { url: u, time: t, source: slice_to_vec(source) })
            },
        }
    }
}

/// Law: the scan keeps the URL of the last matching line.  If line `i`
/// matches and no later line does, the scan's URL is line `i`'s, and its
/// timestamp is line `i`'s whenever that line carries a valid stamp.
pub proof fn lemma_last_match_wins(lines: Seq<Seq<char>>, i: int)
    requires
        0 <= i < lines.len(),
        line_url(lines[i]) is Some,
        forall|j: int| i < j < lines.len() ==> line_url(#[trigger] lines[j]) is None,
    ensures
        scan_lines(lines).0 == line_url(lines[i]),
        line_ts(lines[i]) is Some ==> scan_lines(lines).1 == line_ts(lines[i]),
    decreases lines.len(),
{
    if i == lines.len() - 1 {
    } else {
        lemma_last_match_wins(lines.drop_last(), i);
    }
}

} // verus!
