//! The pure content of the four discovery sources: which registry names,
//! firewall rules and uninstall entries are relevant, how a candidate
//! installation root is cut out of an executable path, and the fixed table
//! of well-known installation directories tried on every drive.
use vstd::prelude::*;
use crate::text::{
    chars_of, contains_lit, contains_seq, copy_range, lower_seq, matches_at, matches_lit_at,
    to_lower,
};

verus! {

pub open spec fn is_slash(c: char) -> bool {
    c == '/' || c == '\\'
}

pub fn is_slash_exec(c: char) -> (r: bool)
    ensures
        r == is_slash(c),
{
    c == '/' || c == '\\'
}

/// A `client` path segment begins at `i` of an already lower-cased string:
/// a slash, the word, a slash.
pub open spec fn sep_low_at(low: Seq<char>, i: int) -> bool {
    &&& 0 <= i
    &&& i + 2 + "client"@.len() <= low.len()
    &&& is_slash(low[i])
    &&& matches_at(low, i + 1, "client"@)
    &&& is_slash(low[i + 1 + "client"@.len()])
}

/// A `client` path segment begins at `i`: a slash, the word in either case,
/// a slash.
pub open spec fn sep_at(s: Seq<char>, i: int) -> bool {
    sep_low_at(lower_seq(s), i)
}

/// Leftmost `client` segment at or after `from`.
pub open spec fn first_sep(s: Seq<char>, from: int) -> Option<int>
    decreases s.len() - from,
{
    if from >= s.len() {
        None
    } else if sep_at(s, from) {
        Some(from)
    } else {
        first_sep(s, from + 1)
    }
}

/// What precedes the first `client` segment of an executable path — the
/// candidate installation root — when such a segment occurs at all.
pub open spec fn client_prefix(s: Seq<char>) -> Option<Seq<char>> {
    match first_sep(s, 0) {
        Some(i) => Some(s.subrange(0, i)),
        None => None,
    }
}

proof fn lemma_first_sep_none(s: Seq<char>, from: int)
    requires
        forall|j: int| from <= j < s.len() ==> !sep_at(s, j),
    ensures
        first_sep(s, from) is None,
    decreases s.len() - from,
{
    if from < s.len() {
        lemma_first_sep_none(s, from + 1);
    }
}

proof fn lemma_first_sep_some(s: Seq<char>, from: int, i: int)
    requires
        0 <= from <= i < s.len(),
        sep_at(s, i),
        forall|j: int| from <= j < i ==> !sep_at(s, j),
    ensures
        first_sep(s, from) == Some(i),
    decreases i - from,
{
    if from < i {
        lemma_first_sep_some(s, from + 1, i);
    }
}

fn sep_low_at_exec(low: &[char], i: usize, clientpat: &[char]) -> (r: bool)
    requires
        clientpat@ == "client"@,
    ensures
        r == sep_low_at(low@, i as int),
{
    let slen = low.len();
    assert(slen == low@.len());
    if i >= slen || slen - i < 2 || slen - i - 2 < clientpat.len() {
        return false;
    }
    is_slash_exec(low[i]) && matches_lit_at(low, i + 1, clientpat) && is_slash_exec(
        low[i + 1 + clientpat.len()],
    )
}

/// Cuts the candidate root out of an executable path: everything before the
/// first `client` segment, when the path has one.
#[verifier::loop_isolation(false)]
pub fn client_prefix_exec(s: &[char]) -> (r: Option<Vec<char>>)
    ensures
        match r {
            Some(v) => client_prefix(s@) == Some(v@),
            None => client_prefix(s@) is None,
        },
{
    let clientpat = chars_of("client");
    let low = to_lower(s);
    let mut i: usize = 0;
    while i < s.len()
        invariant
            i <= s@.len(),
            forall|j: int| 0 <= j < i ==> !sep_at(s@, j),
        decreases s@.len() - i,
    {
        if sep_low_at_exec(low.as_slice(), i, clientpat.as_slice()) {
            proof {
                lemma_first_sep_some(s@, 0, i as int);
            }
            return Some(copy_range(s, 0, i));
        }
        i = i + 1;
    }
    proof {
        lemma_first_sep_none(s@, 0);
    }
    None
}

/// The root the usage-cache source derives from one registry name/value
/// pair: the name's prefix before its first `client` segment, relevant only
/// when the value names the vendor and the name names the client executable
/// (both case-insensitive).
pub open spec fn mui_root(name: Seq<char>, value: Seq<char>) -> Option<Seq<char>> {
    if contains_seq(lower_seq(value), "wuthering"@) && contains_seq(
        lower_seq(name),
        "client-win64-shipping.exe"@,
    ) {
        client_prefix(name)
    } else {
        None
    }
}

/// Applies the usage-cache rule to one registry name/value pair.
pub fn mui_candidate(name: &[char], value: &[char]) -> (r: Option<Vec<char>>)
    ensures
        match r {
            Some(v) => mui_root(name@, value@) == Some(v@),
            None => mui_root(name@, value@) is None,
        },
{
    let lv = to_lower(value);
    let ln = to_lower(name);
    let vendor = chars_of("wuthering");
    let exe = chars_of("client-win64-shipping.exe");
    if contains_lit(lv.as_slice(), vendor.as_slice()) && contains_lit(
        ln.as_slice(),
        exe.as_slice(),
    ) {
        client_prefix_exec(name)
    } else {
        None
    }
}

/// A `|`-delimited token begins at `i`.
pub open spec fn is_tok_start(s: Seq<char>, i: int) -> bool {
    i == 0 || s[i - 1] == '|'
}

/// A token that begins with `app=` begins at `i`.
pub open spec fn app_start_at(s: Seq<char>, i: int) -> bool {
    is_tok_start(s, i) && matches_at(s, i, "app="@)
}

/// Leftmost `app=` token start at or after `from`.
pub open spec fn first_app_start(s: Seq<char>, from: int) -> Option<int>
    decreases s.len() - from,
{
    if from >= s.len() {
        None
    } else if app_start_at(s, from) {
        Some(from)
    } else {
        first_app_start(s, from + 1)
    }
}

/// First `|` at or after `from`, or the end of the string.
pub open spec fn token_end_from(s: Seq<char>, from: int) -> int
    decreases s.len() - from,
{
    if from >= s.len() {
        s.len() as int
    } else if s[from] == '|' {
        from
    } else {
        token_end_from(s, from + 1)
    }
}

/// The executable path carried by a firewall rule: the remainder of the
/// first `|`-delimited token that begins with `app=`.
pub open spec fn firewall_app_path(s: Seq<char>) -> Option<Seq<char>> {
    match first_app_start(s, 0) {
        Some(i) => Some(s.subrange(i + "app="@.len(), token_end_from(s, i + "app="@.len()))),
        None => None,
    }
}

/// The root the firewall source derives from one rule value, which it reads
/// entirely in lower case: relevant only when the rule names the vendor and
/// the client executable; the root is the `app=` path's prefix before its
/// first `client` segment.
pub open spec fn firewall_root(value: Seq<char>) -> Option<Seq<char>> {
    let low = lower_seq(value);
    if contains_seq(low, "wuthering"@) && contains_seq(low, "client-win64-shipping"@) {
        match firewall_app_path(low) {
            Some(p) => client_prefix(p),
            None => None,
        }
    } else {
        None
    }
}

proof fn lemma_first_app_none(s: Seq<char>, from: int)
    requires
        forall|j: int| from <= j < s.len() ==> !app_start_at(s, j),
    ensures
        first_app_start(s, from) is None,
    decreases s.len() - from,
{
    if from < s.len() {
        lemma_first_app_none(s, from + 1);
    }
}

proof fn lemma_first_app_some(s: Seq<char>, from: int, i: int)
    requires
        0 <= from <= i < s.len(),
        app_start_at(s, i),
        forall|j: int| from <= j < i ==> !app_start_at(s, j),
    ensures
        first_app_start(s, from) == Some(i),
    decreases i - from,
{
    if from < i {
        lemma_first_app_some(s, from + 1, i);
    }
}

/// Applies the firewall rule to one registry value.
#[verifier::loop_isolation(false)]
pub fn firewall_candidate(value: &[char]) -> (r: Option<Vec<char>>)
    ensures
        match r {
            Some(v) => firewall_root(value@) == Some(v@),
            None => firewall_root(value@) is None,
        },
{
    let low = to_lower(value);
    let vendor = chars_of("wuthering");
    let exe = chars_of("client-win64-shipping");
    if !(contains_lit(low.as_slice(), vendor.as_slice()) && contains_lit(
        low.as_slice(),
        exe.as_slice(),
    )) {
        return None;
    }
    let apppat = chars_of("app=");
    let s = low.as_slice();
    let slen = s.len();
    assert(slen == s@.len());
    let mut i: usize = 0;
    while i < slen
        invariant
            i <= s@.len(),
            forall|j: int| 0 <= j < i ==> !app_start_at(s@, j),
        decreases s@.len() - i,
    {
        if (i == 0 || s[i - 1] == '|') && matches_lit_at(s, i, apppat.as_slice()) {
            proof {
                lemma_first_app_some(s@, 0, i as int);
            }
            let start = i + apppat.len();
            let mut k: usize = start;
            while k < slen && s[k] != '|'
                invariant
                    start <= k <= s@.len(),
                    token_end_from(s@, start as int) == token_end_from(s@, k as int),
                decreases s@.len() - k,
            {
                k = k + 1;
            }
            assert(token_end_from(s@, start as int) == k as int);
            let path = copy_range(s, start, k);
            return client_prefix_exec(path.as_slice());
        }
        i = i + 1;
    }
    proof {
        lemma_first_app_none(s@, 0);
    }
    None
}

/// The root the installed-application source derives from one uninstall
/// entry: its install path, relevant only when the display name names the
/// vendor (case-insensitive) and the install path is not empty.
pub open spec fn uninstall_root(display_name: Seq<char>, install_path: Seq<char>) -> Option<
    Seq<char>,
> {
    if contains_seq(lower_seq(display_name), "wuthering"@) && install_path.len() > 0 {
        Some(install_path)
    } else {
        None
    }
}

/// Applies the installed-application rule to one uninstall entry.
pub fn uninstall_candidate(display_name: &[char], install_path: &[char]) -> (r: Option<Vec<char>>)
    ensures
        match r {
            Some(v) => uninstall_root(display_name@, install_path@) == Some(v@),
            None => uninstall_root(display_name@, install_path@) is None,
        },
{
    let ld = to_lower(display_name);
    let vendor = chars_of("wuthering");
    if contains_lit(ld.as_slice(), vendor.as_slice()) && install_path.len() > 0 {
        Some(vstd::slice::slice_to_vec(install_path))
    } else {
        None
    }
}

/// The fixed table of well-known installation subpaths tried on every
/// drive: direct installs, the Epic Games launcher, and a third-party
/// launcher.
pub open spec fn common_subpath(k: int) -> Seq<char> {
    if k == 0 {
        "Wuthering Waves Game"@
    } else if k == 1 {
        "Wuthering Waves\\Wuthering Waves Game"@
    } else if k == 2 {
        "Games\\Wuthering Waves Game"@
    } else if k == 3 {
        "Games\\Wuthering Waves\\Wuthering Waves Game"@
    } else if k == 4 {
        "Program Files\\Epic Games\\WutheringWavesj3oFh"@
    } else if k == 5 {
        "Program Files\\Epic Games\\WutheringWavesj3oFh\\Wuthering Waves Game"@
    } else if k == 6 {
        "Games\\WeGameApps\\rail_apps\\Wuthering Waves(2002137)"@
    } else {
        "WeGameApps\\rail_apps\\Wuthering Waves(2002137)"@
    }
}

fn joined(drive: char, sub: &str) -> (r: Vec<char>)
    ensures
        r@ == seq![drive, ':', '/'] + sub@,
{
    let mut r: Vec<char> = Vec::new();
    r.push(drive);
    r.push(':');
    r.push('/');
    let mut t = chars_of(sub);
    r.append(&mut t);
    assert(r@ =~= seq![drive, ':', '/'] + sub@);
    r
}

/// The candidate directories the common-path source tries on one drive.
pub fn drive_paths(drive: char) -> (r: Vec<Vec<char>>)
    ensures
        r@.len() == 8,
        forall|k: int| 0 <= k < 8 ==> (#[trigger] r@[k])@ == seq![drive, ':', '/']
            + common_subpath(k),
{
    let mut r: Vec<Vec<char>> = Vec::new();
    r.push(joined(drive, "Wuthering Waves Game"));
    r.push(joined(drive, "Wuthering Waves\\Wuthering Waves Game"));
    r.push(joined(drive, "Games\\Wuthering Waves Game"));
    r.push(joined(drive, "Games\\Wuthering Waves\\Wuthering Waves Game"));
    r.push(joined(drive, "Program Files\\Epic Games\\WutheringWavesj3oFh"));
    r.push(joined(drive, "Program Files\\Epic Games\\WutheringWavesj3oFh\\Wuthering Waves Game"));
    r.push(joined(drive, "Games\\WeGameApps\\rail_apps\\Wuthering Waves(2002137)"));
    r.push(joined(drive, "WeGameApps\\rail_apps\\Wuthering Waves(2002137)"));
    r
}

/// The drive letters the common-path source walks.
pub fn drive_letters() -> (r: Vec<char>)
    ensures
        r@ == "ABCDEFGHIJKLMNOPQRSTUVWXYZ"@,
{
    chars_of("ABCDEFGHIJKLMNOPQRSTUVWXYZ")
}

/// The first known log file, relative to a candidate root.
pub fn client_log_rel_path() -> (r: String)
    ensures
        r@ == "Client\\Saved\\Logs\\Client.log"@,
{
    String::from_str("Client\\Saved\\Logs\\Client.log")
}

/// The second known log file, relative to a candidate root.
pub fn debug_log_rel_path() -> (r: String)
    ensures
        r@
            == "Client\\Binaries\\Win64\\ThirdParty\\KrPcSdk_Global\\KRSDKRes\\KRSDKWebView\\debug.log"@,
{
    String::from_str(
        "Client\\Binaries\\Win64\\ThirdParty\\KrPcSdk_Global\\KRSDKRes\\KRSDKWebView\\debug.log",
    )
}

} // verus!
