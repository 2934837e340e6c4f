use lnshm::protocol::{Request, TargetState};
use lnshm::registry::{Config, LinkDirectory, TargetNotFound};

fn entry(data: Option<&str>, source: Option<&str>) -> LinkDirectory {
    LinkDirectory { data: data.map(String::from), source: source.map(String::from) }
}

#[test]
fn new_registry_is_empty() {
    let cfg = Config::new(String::from("/mnt/ram"));
    assert_eq!(cfg.shm_path(), "/mnt/ram");
    assert_eq!(cfg.len(), 0);
    assert_eq!(cfg.target_at(0), None);
    assert_eq!(cfg.link_at(0), None);
    assert_eq!(cfg.get("/home/u/cache"), None);
}

#[test]
fn new_entry_records_nothing() {
    assert_eq!(LinkDirectory::new(), entry(None, None));
    let full = entry(Some("/seed"), Some("/mnt/ram/x"));
    assert_eq!(full.duplicate(), full);
}

#[test]
fn add_records_an_entry_under_its_target() {
    let mut cfg = Config::new(String::from("/mnt/ram"));
    cfg.add("/home/u/cache", entry(Some("/seed"), None));
    cfg.add("/home/u/build", entry(None, Some("/mnt/ram/build")));
    assert_eq!(cfg.len(), 2);
    assert_eq!(cfg.get("/home/u/cache"), Some(&entry(Some("/seed"), None)));
    assert_eq!(cfg.get("/home/u/build"), Some(&entry(None, Some("/mnt/ram/build"))));
    assert_eq!(cfg.target_at(0), Some(&String::from("/home/u/cache")));
    assert_eq!(cfg.target_at(1), Some(&String::from("/home/u/build")));
    assert_eq!(cfg.link_at(1), Some(&entry(None, Some("/mnt/ram/build"))));
    assert_eq!(cfg.target_at(2), None);
}

#[test]
fn add_overwrites_the_entry_of_the_same_target() {
    let mut cfg = Config::new(String::from("/mnt/ram"));
    cfg.add("/home/u/cache", entry(Some("/seed"), None));
    cfg.add("/home/u/build", LinkDirectory::new());
    cfg.add("/home/u/cache", entry(None, Some("/mnt/ram/c")));
    assert_eq!(cfg.len(), 2);
    assert_eq!(cfg.target_at(0), Some(&String::from("/home/u/cache")));
    assert_eq!(cfg.get("/home/u/cache"), Some(&entry(None, Some("/mnt/ram/c"))));
}

#[test]
fn add_keeps_the_target_as_given() {
    let mut cfg = Config::new(String::from("/mnt/ram"));
    cfg.add("a/../cache", LinkDirectory::new());
    assert_eq!(cfg.target_at(0), Some(&String::from("a/../cache")));
    assert_eq!(cfg.get("cache"), None);
}

#[test]
fn unlink_of_an_unknown_target_is_refused_and_changes_nothing() {
    let mut cfg = Config::new(String::from("/mnt/ram"));
    cfg.add("/home/u/cache", entry(Some("/seed"), Some("/mnt/ram/cache")));
    let before = cfg.clone();
    assert_eq!(cfg.unlink("/home/u/other", "/home/u"), Err(TargetNotFound));
    assert_eq!(cfg.unlink("cache", "/srv"), Err(TargetNotFound));
    assert_eq!(cfg, before);
}

#[test]
fn unlink_takes_the_entry_out() {
    let mut cfg = Config::new(String::from("/mnt/ram"));
    cfg.add("/home/u/a", LinkDirectory::new());
    cfg.add("/home/u/cache", entry(None, Some("/mnt/ram/cache")));
    cfg.add("/home/u/b", LinkDirectory::new());
    let gone = cfg.unlink("/home/u/cache", "/").expect("an entry");
    assert_eq!(gone.path, "/home/u/cache");
    assert_eq!(gone.link, entry(None, Some("/mnt/ram/cache")));
    assert_eq!(cfg.len(), 2);
    assert_eq!(cfg.get("/home/u/cache"), None);
    assert_eq!(cfg.target_at(0), Some(&String::from("/home/u/a")));
    assert_eq!(cfg.target_at(1), Some(&String::from("/home/u/b")));
}

#[test]
fn unlink_sees_the_target_from_the_working_directory() {
    let mut cfg = Config::new(String::from("/mnt/ram"));
    cfg.add("/home/u/cache", LinkDirectory::new());
    let gone = cfg.unlink("./work/../cache/", "/home/u").expect("an entry");
    assert_eq!(gone.path, "/home/u/cache");
    assert_eq!(cfg.len(), 0);
}

#[test]
fn cleanup_removes_a_link_and_nothing_else() {
    let mut cfg = Config::new(String::from("/mnt/ram"));
    cfg.add("/home/u/cache", LinkDirectory::new());
    let gone = cfg.unlink("cache", "/home/u").expect("an entry");
    assert_eq!(
        gone.cleanup(&TargetState::Link(String::from("/mnt/ram/cache"))),
        Some(Request::RemoveLink { path: String::from("/home/u/cache") })
    );
    assert_eq!(gone.cleanup(&TargetState::Other), None);
    assert_eq!(gone.cleanup(&TargetState::Missing), None);
}
