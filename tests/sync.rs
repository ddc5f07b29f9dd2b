use depexclude::{
    already_excluded, folder_from_host_db, folder_from_maestral, get_folder, is_already_excluded,
    size_of_path, DropBox,
};

#[test]
fn host_db_second_line_is_decoded() {
    let db = b"1234567890\nL1VzZXJzL21lL0Ryb3Bib3g=\n";
    assert_eq!(folder_from_host_db(db), Some("/Users/me/Dropbox".to_string()));
}

#[test]
fn host_db_with_crlf_and_no_final_newline() {
    assert_eq!(
        folder_from_host_db(b"abc\r\nL1VzZXJzL21lL0Ryb3Bib3g=\r\n"),
        Some("/Users/me/Dropbox".to_string())
    );
    assert_eq!(
        folder_from_host_db(b"abc\nL1VzZXJzL21lL0Ryb3Bib3g="),
        Some("/Users/me/Dropbox".to_string())
    );
}

#[test]
fn host_db_without_second_line_or_bad_base64() {
    assert_eq!(folder_from_host_db(b"abc\n"), None);
    assert_eq!(folder_from_host_db(b""), None);
    assert_eq!(folder_from_host_db(b"abc\n!!!\n"), None);
    assert_eq!(folder_from_host_db(b"abc\n/w==\n"), None);
}

#[test]
fn maestral_ini_path() {
    let text = "[main]\nx = 1\n\n[sync]\npath = /Users/me/Dropbox (Maestral)\n";
    assert_eq!(folder_from_maestral(text), Some("/Users/me/Dropbox (Maestral)".to_string()));
    assert_eq!(folder_from_maestral("[main]\npath = /a\n"), None);
}

#[test]
fn host_db_wins_over_ini() {
    let db: &[u8] = b"1\nL1VzZXJzL21lL0Ryb3Bib3g=\n";
    let ini = "[sync]\npath = /other\n";
    assert_eq!(get_folder(Some(db), Some(ini)), "/Users/me/Dropbox");
    assert_eq!(get_folder(None, Some(ini)), "/other");
    assert_eq!(get_folder(None, None), "");
    assert_eq!(get_folder(Some(b"1\n"), Some(ini)), "");
}

#[test]
fn dropbox_folder_is_discovered_once() {
    let mut d = DropBox::new();
    assert_eq!(d.path, "");
    assert_eq!(d.folder(|| "/Users/me/Dropbox".to_string()), "/Users/me/Dropbox");
    assert_eq!(d.folder(|| "/elsewhere".to_string()), "/Users/me/Dropbox");
    assert_eq!(d.name(), "Dropbox");
}

#[test]
fn dropbox_name_edges() {
    let mut d = DropBox::new();
    assert_eq!(d.name(), "");
    d.path = "Dropbox".to_string();
    assert_eq!(d.name(), "Dropbox");
    d.path = "/a/b/".to_string();
    assert_eq!(d.name(), "");
}

#[test]
fn attribute_presence_means_excluded() {
    let key = "com.dropbox.ignored";
    assert!(!already_excluded(key, &vec![]));
    assert!(already_excluded(key, &vec!["a".to_string(), key.to_string()]));
    assert!(!already_excluded(key, &vec!["com.dropbox".to_string()]));
}

#[test]
fn backup_utility_answer() {
    assert!(is_already_excluded("[Excluded]    /Users/me/x/node_modules\n"));
    assert!(!is_already_excluded("[Included]    /Users/me/x\n"));
    assert!(!is_already_excluded("[Exclu"));
    assert!(!is_already_excluded(""));
}

#[test]
fn disk_usage_size() {
    assert_eq!(size_of_path(" 12M\t/Users/me/x/node_modules\n"), "12M");
    assert_eq!(size_of_path("4.0K\n"), "4.0K");
    assert_eq!(size_of_path(""), "");
}
