use mas_installer::state::AppState;
use mas_installer::strutil::{parse_u64, str_ends_with, str_eq, str_starts_with};
use mas_installer::utils::{
    DirEntryInfo, __format_alert_msg, is_stale_script_name, is_valid_ddlc_listing,
};

fn dir(name: &str) -> DirEntryInfo {
    DirEntryInfo { name: name.to_string(), is_dir: true }
}

fn file(name: &str) -> DirEntryInfo {
    DirEntryInfo { name: name.to_string(), is_dir: false }
}

#[test]
fn listing_with_all_markers_is_valid() {
    let entries = vec![
        dir("characters"),
        dir("game"),
        dir("renpy"),
        file("DDLC.py"),
        file("DDLC.sh"),
        file("notes.txt"),
    ];
    assert!(is_valid_ddlc_listing(&entries));
}

#[test]
fn listing_missing_a_marker_is_invalid() {
    let entries = vec![dir("characters"), dir("game"), dir("renpy"), file("DDLC.py")];
    assert!(!is_valid_ddlc_listing(&entries));
    assert!(!is_valid_ddlc_listing(&Vec::new()));
}

#[test]
fn markers_must_have_the_right_kind() {
    // The launcher names count only as files, the folder names only as
    // directories.
    let entries = vec![
        file("characters"),
        dir("game"),
        dir("renpy"),
        file("DDLC.py"),
        file("DDLC.sh"),
    ];
    assert!(!is_valid_ddlc_listing(&entries));
}

#[test]
fn stale_script_names_are_recognized() {
    assert!(is_stale_script_name("script.rpy"));
    assert!(is_stale_script_name("script.rpyc"));
    assert!(is_stale_script_name("a.b.rpy"));
    assert!(!is_stale_script_name(".rpy"));
    assert!(!is_stale_script_name(".rpyc"));
    assert!(!is_stale_script_name("rpy"));
    assert!(!is_stale_script_name("notes.txt"));
    assert!(!is_stale_script_name("script.rpy.bak"));
}

#[test]
fn alert_messages_indent_each_clause_one_level_deeper() {
    assert_eq!(__format_alert_msg("plain"), "plain\n    ");
    assert_eq!(
        __format_alert_msg("download failed: timed out"),
        "download failed\n    timed out\n        "
    );
    assert_eq!(
        __format_alert_msg("a: b: c"),
        "a\n    b\n        c\n            "
    );
    assert_eq!(__format_alert_msg(""), "\n    ");
    assert_eq!(__format_alert_msg("a: "), "a\n    \n        ");
}

#[test]
fn app_state_flags_and_directory_round_trip() {
    let mut state = AppState::new("/games/ddlc".to_string(), false, true, false);
    assert!(!state.get_abort_flag());
    assert!(state.get_deluxe_ver_flag());
    assert!(!state.get_install_spr_flag());
    assert_eq!(state.get_extraction_dir_str(), "/games/ddlc");

    state.set_abort_flag(true);
    assert!(state.get_abort_flag());

    state.invert_deluxe_ver_flag();
    assert!(!state.get_deluxe_ver_flag());
    state.set_deluxe_ver_flag(true);
    assert!(state.get_deluxe_ver_flag());

    state.invert_install_spr_flag();
    assert!(state.get_install_spr_flag());
    state.set_install_spr_flag(false);
    assert!(!state.get_install_spr_flag());

    state.set_extraction_dir("/tmp/elsewhere".to_string());
    assert_eq!(state.get_extraction_dir_str(), "/tmp/elsewhere");
    assert_eq!(state.get_extraction_dir().len(), "/tmp/elsewhere".len());
}

#[test]
fn string_helpers_compare_by_characters() {
    assert!(str_starts_with("hello world", "hello"));
    assert!(!str_starts_with("hello", "hello world"));
    assert!(str_ends_with("hello world", "world"));
    assert!(!str_ends_with("world", "hello world"));
    assert!(str_eq("same", "same"));
    assert!(!str_eq("same", "sane"));
    assert!(!str_eq("same", "same "));
}

#[test]
fn parse_u64_accepts_digits_and_rejects_the_rest() {
    assert_eq!(parse_u64("0"), Some(0));
    assert_eq!(parse_u64("42"), Some(42));
    assert_eq!(parse_u64("+42"), Some(42));
    assert_eq!(parse_u64("18446744073709551615"), Some(u64::MAX));
    assert_eq!(parse_u64("18446744073709551616"), None);
    assert_eq!(parse_u64(""), None);
    assert_eq!(parse_u64("+"), None);
    assert_eq!(parse_u64("4 2"), None);
    assert_eq!(parse_u64("0x10"), None);
}
