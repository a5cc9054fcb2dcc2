use fastsave::git::clean_output;
use fastsave::{find_git_root, get_git_info, Ancestor, GitQueries};

fn ancestor(path: &str, has_marker: bool) -> Ancestor {
    Ancestor { path: path.to_string(), has_marker }
}

fn queries(branch: &str, commit: &str, remote: &str, status: &str) -> GitQueries {
    GitQueries {
        branch: Some(branch.to_string()),
        commit_hash: Some(commit.to_string()),
        remote_url: Some(remote.to_string()),
        status: Some(status.to_string()),
    }
}

const COMMIT: &str = "3b18e512dba79e4c8300dd08aeb37f8e728b8dad";

#[test]
fn no_marker_means_no_repository() {
    let ancestors = vec![ancestor("/home/u/work", false), ancestor("/home/u", false)];
    assert_eq!(find_git_root(&ancestors), None);
    assert_eq!(find_git_root(&Vec::new()), None);
}

#[test]
fn single_repository_is_found() {
    let ancestors = vec![
        ancestor("/home/u/repo/src", false),
        ancestor("/home/u/repo", true),
        ancestor("/home/u", false),
        ancestor("/home", false),
        ancestor("/", false),
    ];
    assert_eq!(find_git_root(&ancestors), Some("/home/u/repo".to_string()));
}

#[test]
fn outer_repository_wins_over_nested_one() {
    let ancestors = vec![
        ancestor("/r/level1/r2/scripts", false),
        ancestor("/r/level1/r2", true),
        ancestor("/r/level1", false),
        ancestor("/r", true),
        ancestor("/", false),
    ];
    assert_eq!(find_git_root(&ancestors), Some("/r".to_string()));
}

#[test]
fn test_git_info_collection() {
    let ancestors = vec![
        ancestor("/tmp/repo/level1/level2", false),
        ancestor("/tmp/repo/level1", false),
        ancestor("/tmp/repo", true),
        ancestor("/tmp", false),
        ancestor("/", false),
    ];
    let root = find_git_root(&ancestors);
    let git_info = get_git_info(root, &queries("main\n", &format!("{}\n", COMMIT), "", ""))
        .expect("Should get git info");
    assert_eq!(git_info.repo_root, "/tmp/repo");
    assert!(!git_info.commit_hash.is_empty());
    assert!(!git_info.is_dirty);
}

#[test]
fn test_git_repository_info() {
    let root = Some("/tmp/repo".to_string());
    let clean = queries("master\n", &format!("{}\n", COMMIT), "", "");
    let git_info = get_git_info(root.clone(), &clean).expect("Git info should be present");
    assert!(git_info.repo_root.contains("/tmp/repo"));
    assert!(!git_info.commit_hash.is_empty());
    assert!(!git_info.is_dirty);
    assert!(!git_info.branch.is_empty(), "Branch name should not be empty");
    assert!(git_info.uncommitted_changes.is_empty());

    let dirty = queries("master\n", &format!("{}\n", COMMIT), "", "?? archive/\n?? new_file.txt\n");
    let git_info = get_git_info(root, &dirty).expect("Git info should be present");
    assert!(git_info.is_dirty);
    assert!(!git_info.uncommitted_changes.is_empty());
    assert!(git_info.uncommitted_changes.iter().any(|line| line.contains("new_file.txt")));
}

#[test]
fn snapshot_holds_the_trimmed_answers() {
    let info = get_git_info(
        Some("/r".to_string()),
        &queries(
            "feature/x\n",
            &format!("{}\n", COMMIT),
            "git@example.com:u/r.git\n",
            " M src/lib.rs\n\n?? notes.txt\n",
        ),
    )
    .unwrap();
    assert_eq!(info.repo_root, "/r");
    assert_eq!(info.branch, "feature/x");
    assert_eq!(info.commit_hash, COMMIT);
    assert_eq!(info.remote_url, "git@example.com:u/r.git");
    assert!(info.is_dirty);
    assert_eq!(info.uncommitted_changes, vec![" M src/lib.rs".to_string(), "?? notes.txt".to_string()]);
}

#[test]
fn missing_remote_is_recorded_as_such() {
    let mut q = queries("main", COMMIT, "  \n", "");
    let info = get_git_info(Some("/r".to_string()), &q).unwrap();
    assert_eq!(info.remote_url, "No remote URL found");
    q.remote_url = None;
    let info = get_git_info(Some("/r".to_string()), &q).unwrap();
    assert_eq!(info.remote_url, "No remote URL found");
}

#[test]
fn no_partial_snapshot() {
    let full = queries("main", COMMIT, "url", "");
    assert_eq!(get_git_info(None, &full), None);
    let mut q = full.clone();
    q.branch = None;
    assert_eq!(get_git_info(Some("/r".to_string()), &q), None);
    let mut q = full.clone();
    q.commit_hash = None;
    assert_eq!(get_git_info(Some("/r".to_string()), &q), None);
    let mut q = full.clone();
    q.status = None;
    assert_eq!(get_git_info(Some("/r".to_string()), &q), None);
    assert!(get_git_info(Some("/r".to_string()), &full).is_some());
}

#[test]
fn change_lines_stay_as_they_were_printed() {
    let info = get_git_info(
        Some("/r".to_string()),
        &queries("main\n", COMMIT, "", " M a.txt\n?? b.txt\n"),
    )
    .unwrap();
    assert!(info.is_dirty);
    assert_eq!(info.uncommitted_changes, vec![" M a.txt".to_string(), "?? b.txt".to_string()]);

    let info = get_git_info(
        Some("/r".to_string()),
        &queries("main\n", COMMIT, "", " D old.txt \r\nMM both.txt\r\n \r\nA  new.txt"),
    )
    .unwrap();
    assert_eq!(
        info.uncommitted_changes,
        vec![" D old.txt ".to_string(), "MM both.txt".to_string(), "A  new.txt".to_string()]
    );
}

#[test]
fn status_of_white_space_only_is_clean() {
    let info = get_git_info(Some("/r".to_string()), &queries("main", COMMIT, "", " \n\n ")).unwrap();
    assert!(!info.is_dirty);
    assert!(info.uncommitted_changes.is_empty());
}

#[test]
fn clean_output_trims_both_ends() {
    assert_eq!(clean_output("  main \n"), "main");
    assert_eq!(clean_output("\n"), "");
    assert_eq!(clean_output("a b"), "a b");
}
