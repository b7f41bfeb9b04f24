use screenhistory::paths::{
    default_knowledge_db_path, default_local_db_path, join_path, knowledge_db_path_in,
    launch_agents_dir, local_db_path_in, log_dir, log_file_in, plist_path_for_label,
};
use std::path::{Path, PathBuf};

#[test]
fn join_matches_pathbuf() {
    for (base, part) in [
        ("/home/a", "b"),
        ("/home/a/", "b"),
        ("", "b"),
        ("/home/a", "/etc"),
        ("rel", "x/y"),
        ("/", "x"),
    ] {
        assert_eq!(
            PathBuf::from(join_path(base, part)),
            Path::new(base).join(part)
        );
    }
}

#[test]
fn paths_under_home() {
    assert_eq!(local_db_path_in("/Users/alice"), "/Users/alice/.screenhistory.sqlite");
    assert_eq!(
        knowledge_db_path_in("/Users/alice"),
        "/Users/alice/Library/Application Support/Knowledge/knowledgeC.db"
    );
    assert_eq!(launch_agents_dir("/Users/alice"), "/Users/alice/Library/LaunchAgents");
    assert_eq!(
        plist_path_for_label("/Users/alice", "com.mikkelam.screenhistory"),
        "/Users/alice/Library/LaunchAgents/com.mikkelam.screenhistory.plist"
    );
    assert_eq!(log_dir("/Users/alice"), "/Users/alice/Library/Logs/screenhistory");
    assert_eq!(
        log_file_in("/Users/alice/Library/Logs/screenhistory"),
        "/Users/alice/Library/Logs/screenhistory/sync.log"
    );
}

#[test]
fn default_paths_use_home_directory() {
    if let Some(dirs) = directories::BaseDirs::new() {
        let home = dirs.home_dir();
        assert_eq!(
            PathBuf::from(default_local_db_path().unwrap()),
            home.join(".screenhistory.sqlite")
        );
        assert_eq!(
            PathBuf::from(default_knowledge_db_path().unwrap()),
            home.join("Library")
                .join("Application Support")
                .join("Knowledge")
                .join("knowledgeC.db")
        );
    }
}
