//! Bootstrap and discovery: the create plan, the version gate, and the
//! upward search.

use grist::config::Config;
use grist::path::RPath;
use grist::repo::{ControlProbe, Db, Repo};
use grist::Error;

fn worktree() -> RPath {
    RPath::from_segments(vec!["tmp".to_string(), "r".to_string()])
}

fn segs(p: &RPath) -> Vec<String> {
    let mut v = Vec::new();
    let mut i = 0;
    while i < p.depth() {
        v.push(p.seg_at(i).clone());
        i += 1;
    }
    v
}

#[test]
fn create_plans_the_layout() {
    let (repo, plan) = Repo::create(worktree(), ControlProbe::Missing).unwrap();
    assert_eq!(segs(&repo.gristpath()), vec!["tmp", "r", ".grist"]);

    assert_eq!(plan.dirs.len(), 5);
    assert_eq!(segs(&plan.dirs[0]), vec!["tmp", "r", ".grist"]);
    assert_eq!(segs(&plan.dirs[1]), vec!["tmp", "r", ".grist", "branches"]);
    assert_eq!(segs(&plan.dirs[2]), vec!["tmp", "r", ".grist", "refs", "tags"]);
    assert_eq!(segs(&plan.dirs[3]), vec!["tmp", "r", ".grist", "refs", "heads"]);
    assert_eq!(segs(&plan.dirs[4]), vec!["tmp", "r", ".grist", "db"]);

    assert_eq!(plan.files.len(), 6);
    assert_eq!(segs(&plan.files[0].path), vec!["tmp", "r", ".grist", "description"]);
    assert_eq!(
        plan.files[0].contents,
        "unnamed repo: edit this file to name the repo".to_string()
    );
    assert_eq!(segs(&plan.files[1].path), vec!["tmp", "r", ".grist", "HEAD"]);
    assert_eq!(plan.files[1].contents, "ref: refs/heads/master\n".to_string());
    assert_eq!(segs(&plan.files[2].path), vec!["tmp", "r", ".grist", "db", "blobs.json"]);
    assert_eq!(plan.files[2].contents, "{}".to_string());
    assert_eq!(segs(&plan.files[3].path), vec!["tmp", "r", ".grist", "db", "commits.json"]);
    assert_eq!(segs(&plan.files[4].path), vec!["tmp", "r", ".grist", "db", "trees.json"]);
    // the configuration file comes last, so an interrupted create is visible
    assert_eq!(segs(&plan.files[5].path), vec!["tmp", "r", ".grist", "config.yaml"]);
    assert_eq!(
        plan.files[5].contents,
        "[core]\nrepositoryformatversion=0\nfilemode=false\nbare=false\n".to_string()
    );
}

#[test]
fn create_accepts_an_existing_control_directory() {
    assert!(Repo::create(worktree(), ControlProbe::IsDir).is_ok());
}

#[test]
fn create_rejects_a_control_file() {
    let err = Repo::create(worktree(), ControlProbe::IsOther).unwrap_err();
    assert_eq!(err, Error::NotADirectory);
}

#[test]
fn default_config_passes_the_version_gate() {
    let config = Repo::default_config();
    assert!(config.version_supported());
    let v = config.get("core", "repositoryformatversion").unwrap().clone();
    assert_eq!(v, Some("0".to_string()));
    assert_eq!(
        config.get("core", "filemode").unwrap().clone(),
        Some("false".to_string())
    );
    assert_eq!(config.get("core", "bare").unwrap().clone(), Some("false".to_string()));
    assert!(config.get("core", "missing").is_none());
}

#[test]
fn load_accepts_the_supported_version() {
    let repo = Repo::load(
        worktree(),
        ControlProbe::IsDir,
        Some(Repo::default_config()),
        Db::empty(),
    )
    .unwrap();
    assert_eq!(segs(&repo.worktree), vec!["tmp", "r"]);
    assert!(repo.config.version_supported());
}

#[test]
fn load_rejects_another_version() {
    let mut config = Repo::default_config();
    config.set("core", "repositoryformatversion", Some("1".to_string()));
    let err = Repo::load(worktree(), ControlProbe::IsDir, Some(config), Db::empty()).unwrap_err();
    assert_eq!(err, Error::UnsupportedVersion);
}

#[test]
fn load_rejects_a_version_left_unset() {
    let mut config = Repo::default_config();
    config.set("core", "repositoryformatversion", None);
    let err = Repo::load(worktree(), ControlProbe::IsDir, Some(config), Db::empty()).unwrap_err();
    assert_eq!(err, Error::UnsupportedVersion);
}

#[test]
fn load_rejects_a_missing_config() {
    let err = Repo::load(worktree(), ControlProbe::IsDir, None, Db::empty()).unwrap_err();
    assert_eq!(err, Error::ConfigNotFound);
}

#[test]
fn load_rejects_a_missing_control_directory() {
    let err = Repo::load(
        worktree(),
        ControlProbe::Missing,
        Some(Repo::default_config()),
        Db::empty(),
    )
    .unwrap_err();
    assert_eq!(err, Error::NotARepository);

    let err = Repo::load(
        worktree(),
        ControlProbe::IsOther,
        Some(Repo::default_config()),
        Db::empty(),
    )
    .unwrap_err();
    assert_eq!(err, Error::NotARepository);
}

#[test]
fn config_set_replaces_in_place() {
    let mut config = Config::new();
    config.set("core", "bare", Some("false".to_string()));
    config.set("core", "bare", Some("true".to_string()));
    assert_eq!(config.len(), 1);
    assert_eq!(config.get("core", "bare").unwrap().clone(), Some("true".to_string()));
    let entry = config.entry_at(0);
    assert_eq!(entry.section, "core".to_string());
    assert_eq!(entry.key, "bare".to_string());
}

#[test]
fn find_resolves_a_descendant_to_the_repository_root() {
    // /tmp/r was created; search starts at /tmp/r/sub/dir
    let start = RPath::from_segments(vec![
        "tmp".to_string(),
        "r".to_string(),
        "sub".to_string(),
        "dir".to_string(),
    ]);
    // one probe per prefix: "/", /tmp, /tmp/r, /tmp/r/sub, /tmp/r/sub/dir
    let has_control = vec![false, false, true, false, false];
    let root = Repo::find(&start, &has_control).unwrap();
    assert_eq!(segs(&root), vec!["tmp", "r"]);
}

#[test]
fn find_from_the_worktree_itself_resolves_to_it() {
    let start = worktree();
    let has_control = vec![false, false, true];
    let root = Repo::find(&start, &has_control).unwrap();
    assert_eq!(segs(&root), vec!["tmp", "r"]);
}

#[test]
fn find_is_idempotent() {
    let start = RPath::from_segments(vec!["tmp".to_string(), "r".to_string(), "sub".to_string()]);
    let has_control = vec![false, false, true, false];
    let first = segs(&Repo::find(&start, &has_control).unwrap());
    let second = segs(&Repo::find(&start, &has_control).unwrap());
    assert_eq!(first, second);
}

#[test]
fn find_prefers_the_nearest_enclosing_repository() {
    let start = RPath::from_segments(vec![
        "tmp".to_string(),
        "outer".to_string(),
        "inner".to_string(),
        "dir".to_string(),
    ]);
    let has_control = vec![false, false, true, true, false];
    let root = Repo::find(&start, &has_control).unwrap();
    assert_eq!(segs(&root), vec!["tmp", "outer", "inner"]);
}

#[test]
fn find_without_any_repository_terminates_with_not_found() {
    let start = RPath::from_segments(vec!["tmp".to_string(), "elsewhere".to_string()]);
    let has_control = vec![false, false, false];
    let err = Repo::find(&start, &has_control).unwrap_err();
    assert_eq!(err, Error::NotARepository);
}

#[test]
fn find_accepts_a_repository_at_the_filesystem_root() {
    let start = RPath::from_segments(Vec::new());
    let has_control = vec![true];
    let root = Repo::find(&start, &has_control).unwrap();
    assert_eq!(root.depth(), 0);
}

#[test]
fn empty_config_fails_the_version_gate() {
    let config = Config::new();
    assert!(!config.version_supported());
}

#[test]
fn parent_stops_at_the_filesystem_root() {
    let p = RPath::from_segments(vec!["tmp".to_string()]);
    let root = p.parent().unwrap();
    assert_eq!(root.depth(), 0);
    assert!(root.parent().is_none());
}
