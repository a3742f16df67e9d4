use eml_replicator::discovery::{
    extension_matches, list_eml_file, push_ext, DiscoveryError, WalkEntry,
};

fn file(path: &str) -> Result<WalkEntry, String> {
    Ok(WalkEntry { path: path.to_string(), is_file: true })
}

fn dir(path: &str) -> Result<WalkEntry, String> {
    Ok(WalkEntry { path: path.to_string(), is_file: false })
}

#[test]
fn flat_listing_keeps_only_the_extension() {
    let entries = vec![
        file("/mail/a.eml"),
        file("/mail/b.txt"),
        file("/mail/c.eml"),
        file("/mail/d"),
        file("/mail/e.eml.bak"),
    ];
    let found = list_eml_file(true, &entries, "eml").unwrap();
    assert_eq!(found, vec!["/mail/a.eml".to_string(), "/mail/c.eml".to_string()]);
}

#[test]
fn recursive_listing_keeps_every_depth_once() {
    let entries = vec![
        dir("/mail"),
        file("/mail/top.eml"),
        dir("/mail/2024"),
        file("/mail/2024/mid.eml"),
        dir("/mail/2024/jan"),
        file("/mail/2024/jan/deep.eml"),
        file("/mail/2024/jan/note.txt"),
    ];
    let found = list_eml_file(true, &entries, "eml").unwrap();
    assert_eq!(
        found,
        vec![
            "/mail/top.eml".to_string(),
            "/mail/2024/mid.eml".to_string(),
            "/mail/2024/jan/deep.eml".to_string()
        ]
    );
}

#[test]
fn directories_named_like_messages_are_left_out() {
    let entries = vec![dir("/mail/box.eml"), file("/mail/box.eml/x.eml")];
    let found = list_eml_file(true, &entries, "eml").unwrap();
    assert_eq!(found, vec!["/mail/box.eml/x.eml".to_string()]);
}

#[test]
fn extension_is_case_sensitive_and_needs_a_name() {
    let entries = vec![file("/m/A.EML"), file("/m/.eml"), file("/m/x.tar.eml")];
    let found = list_eml_file(true, &entries, "eml").unwrap();
    assert_eq!(found, vec!["/m/x.tar.eml".to_string()]);
}

#[test]
fn empty_directory_lists_nothing() {
    let found = list_eml_file(true, &Vec::new(), "eml").unwrap();
    assert!(found.is_empty());
}

#[test]
fn listing_fails_on_a_non_directory() {
    let r = list_eml_file(false, &vec![file("/m/a.eml")], "eml");
    assert!(matches!(r, Err(DiscoveryError::NotADirectory)));
}

#[test]
fn listing_fails_on_the_first_walk_error() {
    let entries = vec![
        file("/m/a.eml"),
        Err("permission denied".to_string()),
        Err("later".to_string()),
    ];
    match list_eml_file(true, &entries, "eml") {
        Err(DiscoveryError::Walk(m)) => assert_eq!(m, "permission denied"),
        other => panic!("unexpected {:?}", other),
    }
}

#[test]
fn push_ext_pushes_matching_files_only() {
    let mut list = Vec::new();
    push_ext(&mut list, &WalkEntry { path: "a/b.eml".to_string(), is_file: true }, "eml");
    push_ext(&mut list, &WalkEntry { path: "a/c.txt".to_string(), is_file: true }, "eml");
    push_ext(&mut list, &WalkEntry { path: "a/d.eml".to_string(), is_file: false }, "eml");
    assert_eq!(list, vec!["a/b.eml".to_string()]);
}

#[test]
fn push_ext_with_empty_extension_takes_files_without_one() {
    let mut list = Vec::new();
    push_ext(&mut list, &WalkEntry { path: "a/README".to_string(), is_file: true }, "");
    push_ext(&mut list, &WalkEntry { path: "a/b.eml".to_string(), is_file: true }, "");
    assert_eq!(list, vec!["a/README".to_string()]);
}

#[test]
fn extension_matches_compares_exactly() {
    assert!(extension_matches(&Some("eml".to_string()), "eml"));
    assert!(!extension_matches(&Some("EML".to_string()), "eml"));
    assert!(!extension_matches(&None, "eml"));
    assert!(extension_matches(&None, ""));
}
