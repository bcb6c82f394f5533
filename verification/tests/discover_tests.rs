use gacha_scan::discover::{
    client_log_rel_path, client_prefix_exec, debug_log_rel_path, drive_letters, drive_paths,
    firewall_candidate, mui_candidate, uninstall_candidate,
};

fn cv(s: &str) -> Vec<char> {
    s.chars().collect()
}

fn cs(v: &[char]) -> String {
    v.iter().collect()
}

#[test]
fn mui_pair_yields_root() {
    let name = cv("D:\\Games\\Wuthering Waves\\client\\Win64\\Client-Win64-Shipping.exe.FriendlyAppName");
    let value = cv("Wuthering Waves ");
    let root = mui_candidate(&name, &value).expect("root expected");
    assert_eq!(cs(&root), "D:\\Games\\Wuthering Waves");
}

#[test]
fn mui_segment_split_is_case_insensitive() {
    // The segment split matches `Client` in any case; the prefix keeps its
    // original spelling.
    let name = cv("D:\\Games\\WW\\Client\\Win64\\Client-Win64-Shipping.exe");
    let value = cv("wuthering waves");
    let root = mui_candidate(&name, &value).expect("root expected");
    assert_eq!(cs(&root), "D:\\Games\\WW");
}

#[test]
fn mui_irrelevant_value_rejected() {
    let name = cv("D:\\g\\client\\Client-Win64-Shipping.exe");
    assert!(mui_candidate(&name, &cv("Some Other Game")).is_none());
}

#[test]
fn mui_irrelevant_name_rejected() {
    let name = cv("D:\\g\\client\\OtherGame.exe");
    assert!(mui_candidate(&name, &cv("Wuthering Waves")).is_none());
}

#[test]
fn firewall_rule_yields_lowercased_root() {
    let value = cv(
        "v2.30|Action=Allow|Active=TRUE|Dir=Out|App=D:\\Games\\Wuthering Waves\\client\\Win64\\Client-Win64-Shipping.exe|Name=wuthering|",
    );
    let root = firewall_candidate(&value).expect("root expected");
    // The whole rule is read in lower case, so the root comes out lowered.
    assert_eq!(cs(&root), "d:\\games\\wuthering waves");
}

#[test]
fn firewall_only_first_app_token_counts() {
    // The first app= token has no client segment, so the rule yields
    // nothing even though a second app= token would.
    let value = cv(
        "v2.30|App=D:\\plain\\client-win64-shipping.exe of wuthering|App=D:\\x\\client\\client-win64-shipping.exe|",
    );
    assert!(firewall_candidate(&value).is_none());
}

#[test]
fn firewall_app_must_be_token_start() {
    let value = cv("v2.30|Name=xApp=D:\\g\\client\\x.exe wuthering client-win64-shipping");
    assert!(firewall_candidate(&value).is_none());
}

#[test]
fn firewall_irrelevant_rule_rejected() {
    let value = cv("v2.30|App=D:\\games\\client\\client-win64-shipping.exe|Name=other game|");
    assert!(firewall_candidate(&value).is_none());
}

#[test]
fn uninstall_entry_yields_install_path() {
    let root = uninstall_candidate(&cv("Wuthering Waves 2.0"), &cv("D:\\WW")).expect("root");
    assert_eq!(cs(&root), "D:\\WW");
}

#[test]
fn uninstall_empty_path_rejected() {
    assert!(uninstall_candidate(&cv("Wuthering Waves"), &cv("")).is_none());
}

#[test]
fn uninstall_other_product_rejected() {
    assert!(uninstall_candidate(&cv("Some Tool"), &cv("D:\\t")).is_none());
}

#[test]
fn client_prefix_takes_first_segment() {
    let p = client_prefix_exec(&cv("a/client/b\\client\\c")).expect("prefix");
    assert_eq!(cs(&p), "a");
}

#[test]
fn client_prefix_mixed_slashes() {
    let p = client_prefix_exec(&cv("D:\\WW/client\\Win64\\x.exe")).expect("prefix");
    assert_eq!(cs(&p), "D:\\WW");
}

#[test]
fn client_prefix_absent() {
    assert!(client_prefix_exec(&cv("D:\\WW\\clientele\\x.exe")).is_none());
}

#[test]
fn common_paths_table() {
    let paths = drive_paths('C');
    assert_eq!(paths.len(), 8);
    assert_eq!(cs(&paths[0]), "C:/Wuthering Waves Game");
    assert_eq!(
        cs(&paths[5]),
        "C:/Program Files\\Epic Games\\WutheringWavesj3oFh\\Wuthering Waves Game"
    );
    assert_eq!(
        cs(&paths[7]),
        "C:/WeGameApps\\rail_apps\\Wuthering Waves(2002137)"
    );
}

#[test]
fn drive_letter_list() {
    let d = drive_letters();
    assert_eq!(cs(&d), "ABCDEFGHIJKLMNOPQRSTUVWXYZ");
}

#[test]
fn known_log_file_locations() {
    assert_eq!(client_log_rel_path(), "Client\\Saved\\Logs\\Client.log");
    assert_eq!(
        debug_log_rel_path(),
        "Client\\Binaries\\Win64\\ThirdParty\\KrPcSdk_Global\\KRSDKRes\\KRSDKWebView\\debug.log"
    );
}
