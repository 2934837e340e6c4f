use lnshm::merge::{copy_all, MergeStep};
use lnshm::names::find_available_name;
use lnshm::pass::Pass;
use lnshm::path::{join, normalize};
use lnshm::protocol::{DirItem, Event, Failure, Request, Step, TargetState};
use lnshm::reconcile::Reconciler;
use lnshm::registry::{Config, LinkDirectory};
use std::collections::BTreeMap;

#[derive(Clone, Debug, PartialEq)]
enum Node {
    Dir,
    File(String),
    Link(String),
}

/// A file system in memory, with a record of everything that changed it.
struct Disk {
    nodes: BTreeMap<String, Node>,
    cwd: String,
    changes: Vec<Request>,
}

impl Disk {
    fn new(cwd: &str) -> Disk {
        let mut disk = Disk { nodes: BTreeMap::new(), cwd: cwd.to_string(), changes: Vec::new() };
        disk.nodes.insert(String::from("/"), Node::Dir);
        disk.make_dirs(cwd);
        disk
    }

    fn absolute(&self, path: &str) -> String {
        normalize(&join(&self.cwd, path))
    }

    fn parent_of(path: &str) -> String {
        match path.rfind('/') {
            Some(0) | None => String::from("/"),
            Some(at) => path[..at].to_string(),
        }
    }

    fn make_dirs(&mut self, path: &str) {
        let path = self.absolute(path);
        let mut at = String::new();
        for part in path.split('/').filter(|p| !p.is_empty()) {
            at.push('/');
            at.push_str(part);
            match self.nodes.get(&at) {
                None => {
                    self.nodes.insert(at.clone(), Node::Dir);
                }
                Some(Node::Dir) => {}
                Some(Node::Link(_)) => {}
                Some(Node::File(_)) => panic!("{} is a file", at),
            }
        }
    }

    fn write(&mut self, path: &str, content: &str) {
        let path = self.absolute(path);
        self.make_dirs(&Disk::parent_of(&path));
        self.nodes.insert(path, Node::File(content.to_string()));
    }

    fn link(&mut self, path: &str, dest: &str) {
        let path = self.absolute(path);
        self.make_dirs(&Disk::parent_of(&path));
        self.nodes.insert(path, Node::Link(dest.to_string()));
    }

    fn node(&self, path: &str) -> Option<&Node> {
        self.nodes.get(&self.absolute(path))
    }

    fn followed(&self, path: &str) -> Option<&Node> {
        let mut at = self.absolute(path);
        for _ in 0..16 {
            match self.nodes.get(&at) {
                Some(Node::Link(dest)) => at = self.absolute(dest),
                other => return other,
            }
        }
        None
    }

    fn content(&self, path: &str) -> Option<String> {
        match self.followed(path) {
            Some(Node::File(text)) => Some(text.clone()),
            _ => None,
        }
    }

    fn is_dir(&self, path: &str) -> bool {
        matches!(self.node(path), Some(Node::Dir))
    }

    fn link_of(&self, path: &str) -> Option<String> {
        match self.node(path) {
            Some(Node::Link(dest)) => Some(dest.clone()),
            _ => None,
        }
    }

    fn names_in(&self, dir: &str) -> Vec<(String, bool)> {
        let dir = self.absolute(dir);
        let lead = if dir == "/" { String::from("/") } else { format!("{}/", dir) };
        let mut names = Vec::new();
        for (path, node) in &self.nodes {
            if path.len() > lead.len() && path.starts_with(&lead) && !path[lead.len()..].contains('/') {
                names.push((path[lead.len()..].to_string(), *node == Node::Dir));
            }
        }
        names
    }

    fn inspect(&self, path: &str) -> TargetState {
        if self.followed(path).is_none() {
            return TargetState::Missing;
        }
        match self.node(path) {
            Some(Node::Link(dest)) => TargetState::Link(dest.clone()),
            _ => TargetState::Other,
        }
    }

    fn perform(&mut self, request: Request) -> Event {
        match &request {
            Request::Probe { path } => return Event::Exists(self.followed(path).is_some()),
            Request::Inspect { path } => return Event::Target(self.inspect(path)),
            Request::Allocate { root } => {
                let taken: Vec<String> = self.names_in(root).into_iter().map(|n| n.0).collect();
                return Event::Allocated(find_available_name(root, &taken));
            }
            Request::List { dir } => {
                let items = self
                    .names_in(dir)
                    .into_iter()
                    .map(|(name, is_dir)| DirItem { name, is_dir })
                    .collect();
                return Event::Listing(items);
            }
            Request::Resolve { path } => return Event::Resolved(self.absolute(path)),
            _ => {}
        }
        self.changes.push(request.clone());
        match request {
            Request::RemoveLink { path } => {
                assert!(self.link_of(&path).is_some(), "{} is no link", path);
                let at = self.absolute(&path);
                self.nodes.remove(&at);
            }
            Request::Rename { from, to } => {
                let from = self.absolute(&from);
                let to = self.absolute(&to);
                assert!(self.nodes.contains_key(&from), "{} does not exist", from);
                assert!(!self.nodes.contains_key(&to), "{} exists", to);
                let inside = format!("{}/", from);
                let moved: Vec<String> = self
                    .nodes
                    .keys()
                    .filter(|k| **k == from || k.starts_with(&inside))
                    .cloned()
                    .collect();
                for old in moved {
                    let node = self.nodes.remove(&old).unwrap();
                    self.nodes.insert(format!("{}{}", to, &old[from.len()..]), node);
                }
            }
            Request::CreateDir { path } => self.make_dirs(&path),
            Request::Symlink { source, target } => {
                let at = self.absolute(&target);
                assert!(!self.nodes.contains_key(&at), "{} exists", at);
                assert!(self.is_dir(&Disk::parent_of(&at)), "{} has no parent", at);
                self.nodes.insert(at, Node::Link(source));
            }
            Request::CopyFile { from, to } => {
                let text = self.content(&from).expect("a file to copy");
                let at = self.absolute(&to);
                assert!(self.is_dir(&Disk::parent_of(&at)), "{} has no parent", at);
                self.nodes.insert(at, Node::File(text));
            }
            _ => unreachable!(),
        }
        Event::Done
    }
}

fn run_pass(cfg: &mut Config, disk: &mut Disk) -> Step {
    let mut pass = Pass::new(&disk.cwd);
    let mut event = Event::Begin;
    for _ in 0..10_000 {
        let (next, step) = cfg.apply(pass, event);
        pass = next;
        match step {
            Step::Ask(request) => event = disk.perform(request),
            other => return other,
        }
    }
    panic!("the pass does not end");
}

fn entry(data: Option<&str>, source: Option<&str>) -> LinkDirectory {
    LinkDirectory { data: data.map(String::from), source: source.map(String::from) }
}

#[test]
fn missing_target_is_linked_to_a_new_backing_directory() {
    let mut disk = Disk::new("/home/u");
    let mut cfg = Config::new(String::from("/mnt/ram"));
    cfg.add("/home/u/cache", LinkDirectory::new());

    let step = run_pass(&mut cfg, &mut disk);

    assert_eq!(step, Step::Done { changed: true });
    assert_eq!(disk.link_of("/home/u/cache"), Some(String::from("/mnt/ram/cache")));
    assert!(disk.is_dir("/mnt/ram/cache"));
    assert!(disk.is_dir("/mnt/ram"));
    assert_eq!(cfg.get("/home/u/cache"), Some(&entry(None, Some("/mnt/ram/cache"))));
    assert_eq!(
        disk.changes,
        vec![
            Request::CreateDir { path: String::from("/mnt/ram") },
            Request::CreateDir { path: String::from("/mnt/ram/cache") },
            Request::Symlink {
                source: String::from("/mnt/ram/cache"),
                target: String::from("/home/u/cache"),
            },
        ]
    );
}

#[test]
fn correct_link_means_no_change_on_disk_and_none_reported() {
    let mut disk = Disk::new("/home/u");
    disk.make_dirs("/mnt/ram/cache");
    disk.link("/home/u/cache", "/mnt/ram/cache");
    let mut cfg = Config::new(String::from("/mnt/ram"));
    cfg.add("/home/u/cache", entry(None, Some("/mnt/ram/cache")));
    let before = disk.nodes.clone();

    let step = run_pass(&mut cfg, &mut disk);

    assert_eq!(step, Step::Done { changed: false });
    assert!(disk.changes.is_empty());
    assert_eq!(disk.nodes, before);
    assert_eq!(cfg.get("/home/u/cache"), Some(&entry(None, Some("/mnt/ram/cache"))));
}

#[test]
fn second_pass_changes_nothing() {
    let mut disk = Disk::new("/home/u");
    let mut cfg = Config::new(String::from("/mnt/ram"));
    cfg.add("/home/u/cache", LinkDirectory::new());
    assert_eq!(run_pass(&mut cfg, &mut disk), Step::Done { changed: true });
    let settled = cfg.clone();
    let before = disk.nodes.clone();
    disk.changes.clear();

    assert_eq!(run_pass(&mut cfg, &mut disk), Step::Done { changed: false });

    assert!(disk.changes.is_empty());
    assert_eq!(disk.nodes, before);
    assert_eq!(cfg, settled);
}

#[test]
fn ordinary_directory_is_kept_under_old_and_replaced_by_a_link() {
    let mut disk = Disk::new("/home/u");
    disk.write("/home/u/cache/keep.txt", "kept");
    disk.write("/home/u/cache/deep/more.txt", "more");
    let mut cfg = Config::new(String::from("/mnt/ram"));
    cfg.add("/home/u/cache", LinkDirectory::new());

    let step = run_pass(&mut cfg, &mut disk);

    assert_eq!(step, Step::Done { changed: true });
    assert!(disk.is_dir("/home/u/cache.old"));
    assert_eq!(disk.content("/home/u/cache.old/keep.txt"), Some(String::from("kept")));
    assert_eq!(disk.content("/home/u/cache.old/deep/more.txt"), Some(String::from("more")));
    assert_eq!(disk.link_of("/home/u/cache"), Some(String::from("/mnt/ram/cache")));
    assert!(disk.is_dir("/mnt/ram/cache"));
    assert!(disk.names_in("/mnt/ram/cache").is_empty());
    assert_eq!(cfg.get("/home/u/cache"), Some(&entry(None, Some("/mnt/ram/cache"))));
}

#[test]
fn ordinary_directory_with_a_backing_directory_is_linked_to_it() {
    let mut disk = Disk::new("/home/u");
    disk.make_dirs("/home/u/cache");
    disk.write("/mnt/ram/store/x", "x");
    let mut cfg = Config::new(String::from("/mnt/ram"));
    cfg.add("/home/u/cache", entry(None, Some("/mnt/ram/store")));

    let step = run_pass(&mut cfg, &mut disk);

    assert_eq!(step, Step::Done { changed: false });
    assert!(disk.is_dir("/home/u/cache.old"));
    assert_eq!(disk.link_of("/home/u/cache"), Some(String::from("/mnt/ram/store")));
    assert_eq!(disk.content("/mnt/ram/store/x"), Some(String::from("x")));
}

#[test]
fn link_to_the_wrong_place_is_replaced_and_its_pointee_left_alone() {
    let mut disk = Disk::new("/home/u");
    disk.write("/elsewhere/data.txt", "stays");
    disk.make_dirs("/mnt/ram/cache");
    disk.link("/home/u/cache", "/elsewhere");
    let mut cfg = Config::new(String::from("/mnt/ram"));
    cfg.add("/home/u/cache", entry(None, Some("/mnt/ram/cache")));

    let step = run_pass(&mut cfg, &mut disk);

    assert_eq!(step, Step::Done { changed: false });
    assert_eq!(disk.link_of("/home/u/cache"), Some(String::from("/mnt/ram/cache")));
    assert!(disk.is_dir("/elsewhere"));
    assert_eq!(disk.content("/elsewhere/data.txt"), Some(String::from("stays")));
    assert_eq!(
        disk.changes,
        vec![
            Request::RemoveLink { path: String::from("/home/u/cache") },
            Request::Symlink {
                source: String::from("/mnt/ram/cache"),
                target: String::from("/home/u/cache"),
            },
        ]
    );
}

#[test]
fn link_to_the_wrong_place_with_lost_backing_gets_a_new_one() {
    let mut disk = Disk::new("/home/u");
    disk.make_dirs("/elsewhere");
    disk.make_dirs("/mnt/ram");
    disk.link("/home/u/cache", "/elsewhere");
    let mut cfg = Config::new(String::from("/mnt/ram"));
    cfg.add("/home/u/cache", entry(None, Some("/mnt/ram/gone")));

    let step = run_pass(&mut cfg, &mut disk);

    assert_eq!(step, Step::Done { changed: true });
    assert_eq!(disk.link_of("/home/u/cache"), Some(String::from("/mnt/ram/cache")));
    assert!(disk.is_dir("/mnt/ram/cache"));
    assert!(disk.is_dir("/elsewhere"));
    assert_eq!(cfg.get("/home/u/cache"), Some(&entry(None, Some("/mnt/ram/cache"))));
}

#[test]
fn lost_backing_directory_is_made_anew() {
    let mut disk = Disk::new("/home/u");
    disk.make_dirs("/mnt/ram");
    let mut cfg = Config::new(String::from("/mnt/ram"));
    cfg.add("/home/u/cache", entry(None, Some("/mnt/ram/lost")));

    let step = run_pass(&mut cfg, &mut disk);

    assert_eq!(step, Step::Done { changed: true });
    assert_eq!(disk.link_of("/home/u/cache"), Some(String::from("/mnt/ram/cache")));
    assert_eq!(cfg.get("/home/u/cache"), Some(&entry(None, Some("/mnt/ram/cache"))));
}

#[test]
fn link_without_a_recorded_backing_directory_is_left_alone() {
    let mut disk = Disk::new("/home/u");
    disk.make_dirs("/elsewhere");
    disk.make_dirs("/mnt/ram");
    disk.link("/home/u/cache", "/elsewhere");
    let mut cfg = Config::new(String::from("/mnt/ram"));
    cfg.add("/home/u/cache", entry(Some("/seed"), None));

    let step = run_pass(&mut cfg, &mut disk);

    assert_eq!(step, Step::Done { changed: false });
    assert!(disk.changes.is_empty());
    assert_eq!(cfg.get("/home/u/cache"), Some(&entry(Some("/seed"), None)));
}

#[test]
fn seed_data_is_copied_over_the_backing_directory() {
    let mut disk = Disk::new("/home/u");
    disk.write("/seed/a.txt", "alpha");
    disk.write("/seed/sub/b.txt", "beta");
    disk.write("/mnt/ram/cache/own.txt", "own");
    disk.write("/mnt/ram/cache/a.txt", "stale");
    disk.write("/mnt/ram/cache/sub/other.txt", "other");
    disk.link("/home/u/cache", "/mnt/ram/cache");
    let mut cfg = Config::new(String::from("/mnt/ram"));
    cfg.add("/home/u/cache", entry(Some("/seed"), Some("/mnt/ram/cache")));

    let step = run_pass(&mut cfg, &mut disk);

    assert_eq!(step, Step::Done { changed: false });
    assert_eq!(disk.content("/mnt/ram/cache/a.txt"), Some(String::from("alpha")));
    assert_eq!(disk.content("/mnt/ram/cache/sub/b.txt"), Some(String::from("beta")));
    assert_eq!(disk.content("/mnt/ram/cache/own.txt"), Some(String::from("own")));
    assert_eq!(disk.content("/mnt/ram/cache/sub/other.txt"), Some(String::from("other")));
    assert_eq!(disk.content("/seed/a.txt"), Some(String::from("alpha")));
    assert_eq!(cfg.get("/home/u/cache"), Some(&entry(Some("/seed"), Some("/mnt/ram/cache"))));
}

#[test]
fn seed_data_fills_a_new_backing_directory() {
    let mut disk = Disk::new("/home/u");
    disk.write("/seed/a.txt", "alpha");
    disk.write("/seed/sub/b.txt", "beta");
    disk.make_dirs("/seed/empty/inner");
    let mut cfg = Config::new(String::from("/mnt/ram"));
    cfg.add("/home/u/cache", entry(Some("/seed"), None));

    let step = run_pass(&mut cfg, &mut disk);

    assert_eq!(step, Step::Done { changed: true });
    assert_eq!(disk.content("/home/u/cache/a.txt"), None);
    assert_eq!(disk.content("/mnt/ram/cache/a.txt"), Some(String::from("alpha")));
    assert_eq!(disk.content("/mnt/ram/cache/sub/b.txt"), Some(String::from("beta")));
    assert!(disk.node("/mnt/ram/cache/empty").is_none());
}

#[test]
fn relative_seed_path_is_resolved_after_the_copy() {
    let mut disk = Disk::new("/home/u");
    disk.write("/home/u/seed/a.txt", "alpha");
    let mut cfg = Config::new(String::from("/mnt/ram"));
    cfg.add("/home/u/cache", entry(Some("seed"), None));

    let step = run_pass(&mut cfg, &mut disk);

    assert_eq!(step, Step::Done { changed: true });
    assert_eq!(disk.content("/mnt/ram/cache/a.txt"), Some(String::from("alpha")));
    assert_eq!(
        cfg.get("/home/u/cache"),
        Some(&entry(Some("/home/u/seed"), Some("/mnt/ram/cache")))
    );
}

#[test]
fn relative_target_is_kept_under_its_absolute_normal_form() {
    let mut disk = Disk::new("/home/u");
    let mut cfg = Config::new(String::from("/mnt/ram"));
    cfg.add("work/../cache", LinkDirectory::new());

    let step = run_pass(&mut cfg, &mut disk);

    assert_eq!(step, Step::Done { changed: true });
    assert_eq!(cfg.len(), 1);
    assert_eq!(cfg.get("work/../cache"), None);
    assert_eq!(cfg.get("/home/u/cache"), Some(&entry(None, Some("/mnt/ram/cache"))));
    assert_eq!(cfg.target_at(0), Some(&String::from("/home/u/cache")));
}

#[test]
fn relative_target_takes_the_place_of_the_entry_with_its_key() {
    let mut disk = Disk::new("/home/u");
    disk.make_dirs("/mnt/ram/one");
    disk.link("/home/u/cache", "/mnt/ram/one");
    let mut cfg = Config::new(String::from("/mnt/ram"));
    cfg.add("cache", entry(None, Some("/mnt/ram/one")));
    cfg.add("/home/u/cache", entry(Some("/nowhere"), None));
    cfg.add("/home/u/other", entry(None, None));

    let step = run_pass(&mut cfg, &mut disk);

    assert_eq!(step, Step::Done { changed: true });
    assert_eq!(cfg.len(), 2);
    assert_eq!(cfg.target_at(0), Some(&String::from("/home/u/cache")));
    assert_eq!(cfg.link_at(0), Some(&entry(None, Some("/mnt/ram/one"))));
    assert_eq!(cfg.target_at(1), Some(&String::from("/home/u/other")));
}

#[test]
fn entries_are_reconciled_one_after_the_other() {
    let mut disk = Disk::new("/home/u");
    disk.make_dirs("/home/u/b");
    let mut cfg = Config::new(String::from("/mnt/ram"));
    cfg.add("/home/u/a", LinkDirectory::new());
    cfg.add("/home/u/b", LinkDirectory::new());
    cfg.add("/home/u/c", entry(None, Some("/mnt/ram/a")));

    let step = run_pass(&mut cfg, &mut disk);

    assert_eq!(step, Step::Done { changed: true });
    assert_eq!(disk.link_of("/home/u/a"), Some(String::from("/mnt/ram/a")));
    assert_eq!(disk.link_of("/home/u/b"), Some(String::from("/mnt/ram/b")));
    assert_eq!(disk.link_of("/home/u/c"), Some(String::from("/mnt/ram/a")));
    assert!(disk.is_dir("/home/u/b.old"));
}

#[test]
fn empty_registry_only_makes_the_storage_root() {
    let mut disk = Disk::new("/home/u");
    let mut cfg = Config::new(String::from("/mnt/ram"));

    let step = run_pass(&mut cfg, &mut disk);

    assert_eq!(step, Step::Done { changed: false });
    assert_eq!(disk.changes, vec![Request::CreateDir { path: String::from("/mnt/ram") }]);
}

#[test]
fn target_without_a_name_gets_a_generated_backing_directory() {
    let mut disk = Disk::new("/home/u");
    disk.make_dirs("/mnt/ram");
    let mut cfg = Config::new(String::from("/mnt/ram"));
    cfg.add("/home/u/..", LinkDirectory::new());
    let (rec, first) = Reconciler::begin("/home/u/..", LinkDirectory::new(), "/mnt/ram");
    assert_eq!(first, Request::Inspect { path: String::from("/home/u/..") });

    let (rec, step) = rec.step(Event::Target(TargetState::Missing));
    assert_eq!(step, Step::Ask(Request::Allocate { root: String::from("/mnt/ram") }));
    let picked = match disk.perform(Request::Allocate { root: String::from("/mnt/ram") }) {
        Event::Allocated(Some(path)) => path,
        other => panic!("no name: {:?}", other),
    };
    assert!(picked.starts_with("/mnt/ram/"));
    assert!(disk.node(&picked).is_none());

    let (rec, step) = rec.step(Event::Allocated(Some(picked.clone())));
    assert_eq!(step, Step::Ask(Request::CreateDir { path: picked.clone() }));
    let (rec, step) = rec.step(Event::Done);
    assert_eq!(
        step,
        Step::Ask(Request::Symlink { source: picked.clone(), target: String::from("/home/u/..") })
    );
    let (rec, step) = rec.step(Event::Done);
    assert_eq!(step, Step::Done { changed: true });
    assert_eq!(rec.link, entry(None, Some(&picked)));
}

#[test]
fn exhausted_names_end_the_pass_for_good() {
    let mut cfg = Config::new(String::from("/mnt/ram"));
    cfg.add("/", LinkDirectory::new());
    let pass = Pass::new("/home/u");
    let (pass, step) = cfg.apply(pass, Event::Begin);
    assert_eq!(step, Step::Ask(Request::Probe { path: String::from("/mnt/ram") }));
    let (pass, step) = cfg.apply(pass, Event::Exists(true));
    assert_eq!(step, Step::Ask(Request::Inspect { path: String::from("/") }));
    let (pass, step) = cfg.apply(pass, Event::Target(TargetState::Other));
    assert_eq!(
        step,
        Step::Ask(Request::Rename { from: String::from("/"), to: String::from("/.old") })
    );
    let (pass, step) = cfg.apply(pass, Event::Done);
    assert_eq!(step, Step::Ask(Request::Allocate { root: String::from("/mnt/ram") }));

    let (pass, step) = cfg.apply(pass, Event::Allocated(None));

    assert_eq!(step, Step::Failed(Failure::NamesExhausted));
    let (_, step) = cfg.apply(pass, Event::Done);
    assert_eq!(step, Step::Failed(Failure::UnexpectedEvent));
    assert_eq!(cfg.get("/"), Some(&LinkDirectory::new()));
}

#[test]
fn event_that_answers_nothing_is_refused() {
    let mut cfg = Config::new(String::from("/mnt/ram"));
    cfg.add("/home/u/cache", LinkDirectory::new());

    let (_, step) = cfg.apply(Pass::new("/"), Event::Done);
    assert_eq!(step, Step::Failed(Failure::UnexpectedEvent));

    let (pass, _) = cfg.apply(Pass::new("/"), Event::Begin);
    let (_, step) = cfg.apply(pass, Event::Resolved(String::from("/x")));
    assert_eq!(step, Step::Failed(Failure::UnexpectedEvent));

    let (rec, _) = Reconciler::begin("/home/u/cache", LinkDirectory::new(), "/mnt/ram");
    let (_, step) = rec.step(Event::Exists(true));
    assert_eq!(step, Step::Failed(Failure::UnexpectedEvent));
}

#[test]
fn merge_walks_the_tree_depth_first() {
    let mut disk = Disk::new("/");
    disk.write("/seed/a.txt", "alpha");
    disk.write("/seed/sub/b.txt", "beta");
    disk.write("/seed/z.txt", "zeta");
    let (mut merger, first) = copy_all("/seed", "/back");
    assert_eq!(first, Request::List { dir: String::from("/seed") });
    let mut asked = vec![first.clone()];
    let mut event = disk.perform(first);
    loop {
        let (next, step) = merger.step(event);
        merger = next;
        match step {
            MergeStep::Ask(request) => {
                asked.push(request.clone());
                event = disk.perform(request);
            }
            MergeStep::Complete => break,
            MergeStep::Rejected => panic!("rejected"),
        }
    }
    let path = |p: &str| String::from(p);
    assert_eq!(
        asked,
        vec![
            Request::List { dir: path("/seed") },
            Request::Probe { path: path("/back") },
            Request::CreateDir { path: path("/back") },
            Request::CopyFile { from: path("/seed/a.txt"), to: path("/back/a.txt") },
            Request::List { dir: path("/seed/sub") },
            Request::Probe { path: path("/back/sub") },
            Request::CreateDir { path: path("/back/sub") },
            Request::CopyFile { from: path("/seed/sub/b.txt"), to: path("/back/sub/b.txt") },
            Request::Probe { path: path("/back") },
            Request::CopyFile { from: path("/seed/z.txt"), to: path("/back/z.txt") },
        ]
    );
    assert_eq!(disk.content("/back/sub/b.txt"), Some(String::from("beta")));
}

#[test]
fn merge_of_an_empty_tree_creates_nothing() {
    let mut disk = Disk::new("/");
    disk.make_dirs("/seed/only/dirs");
    let (merger, first) = copy_all("/seed", "/back");
    let (merger, step) = merger.step(disk.perform(first));
    assert_eq!(step, MergeStep::Ask(Request::List { dir: String::from("/seed/only") }));
    let (merger, step) = merger.step(disk.perform(Request::List { dir: String::from("/seed/only") }));
    assert_eq!(step, MergeStep::Ask(Request::List { dir: String::from("/seed/only/dirs") }));
    let (_, step) = merger.step(Event::Listing(Vec::new()));
    assert_eq!(step, MergeStep::Complete);
    assert!(disk.changes.is_empty());
}

#[test]
fn merge_refuses_an_event_that_answers_nothing() {
    let (merger, _) = copy_all("/seed", "/back");
    let (merger, step) = merger.step(Event::Done);
    assert_eq!(step, MergeStep::Rejected);
    let (_, step) = merger.step(Event::Listing(Vec::new()));
    assert_eq!(step, MergeStep::Rejected);
}
