//! The registry: which target directory is backed by which directory under
//! the storage root.

use crate::path::{is_absolute, is_absolute_path, join, join_paths, normal_form, normalize};
use crate::protocol::{Request, RequestView, TargetState};
use vstd::prelude::*;

verus! {

/// What the registry records for one target.
#[derive(Clone, Debug, PartialEq, Eq)]
pub struct LinkDirectory {
    /// A directory whose contents are copied into the backing directory
    /// every time the target is reconciled, if there is one.
    pub data: Option<String>,
    /// The backing directory that the target links to, once one is allocated.
    pub source: Option<String>,
}

pub struct LinkView {
    pub data: Option<Seq<char>>,
    pub source: Option<Seq<char>>,
}

/// The text of an optional string.
pub open spec fn text_view(s: Option<String>) -> Option<Seq<char>> {
    match s {
        Some(t) => Some(t@),
        None => None,
    }
}

impl View for LinkDirectory {
    type V = LinkView;

    open spec fn view(&self) -> LinkView {
        LinkView { data: text_view(self.data), source: text_view(self.source) }
    }
}

/// A copy of an optional string.
pub fn copy_text(s: &Option<String>) -> (r: Option<String>)
    ensures
        text_view(r) == text_view(*s),
{
    match s {
        Some(t) => Some(t.clone()),
        None => None,
    }
}

impl LinkDirectory {
    /// An entry with no seed data and no backing directory yet.
    pub fn new() -> (r: LinkDirectory)
        ensures
            r@ == (LinkView { data: None, source: None }),
    {
        LinkDirectory { data: None, source: None }
    }

    /// A copy of this entry.
    pub fn duplicate(&self) -> (r: LinkDirectory)
        ensures
            r@ == self@,
    {
        LinkDirectory { data: copy_text(&self.data), source: copy_text(&self.source) }
    }
}

/// The entries of a registry: pairs of a target and what is recorded for it.
pub type Entries = Seq<(Seq<char>, LinkView)>;

/// The place of the first entry for `key`, if there is one.
pub open spec fn find(entries: Entries, key: Seq<char>) -> Option<int>
    decreases entries.len(),
{
    if entries.len() == 0 {
        None
    } else {
        match find(entries.drop_last(), key) {
            Some(i) => Some(i),
            None => if entries.last().0 == key {
                Some(entries.len() - 1)
            } else {
                None
            },
        }
    }
}

/// What is recorded for `key`.
pub open spec fn lookup(entries: Entries, key: Seq<char>) -> Option<LinkView> {
    match find(entries, key) {
        Some(i) => Some(entries[i].1),
        None => None,
    }
}

/// No two entries have the same target.
pub open spec fn distinct_keys(entries: Entries) -> bool {
    forall|i: int, j: int|
        0 <= i < j < entries.len() ==> (#[trigger] entries[i]).0 != (#[trigger] entries[j]).0
}

/// The entries with `link` recorded for `key`: in the place of what was
/// recorded for it before, or else behind all others.
pub open spec fn upsert(entries: Entries, key: Seq<char>, link: LinkView) -> Entries {
    match find(entries, key) {
        Some(i) => entries.update(i, (key, link)),
        None => entries.push((key, link)),
    }
}

/// The entries without the one for `key`.
pub open spec fn without(entries: Entries, key: Seq<char>) -> Entries {
    match find(entries, key) {
        Some(i) => entries.remove(i),
        None => entries,
    }
}

/// The entries as a map from target to what is recorded for it.
pub open spec fn links(entries: Entries) -> Map<Seq<char>, LinkView> {
    Map::new(|key: Seq<char>| find(entries, key) is Some, |key: Seq<char>| lookup(entries, key)->0)
}

/// The entries whose target is absolute, or those whose target is not, in
/// their order.
pub open spec fn entries_where(entries: Entries, absolute: bool) -> Entries
    decreases entries.len(),
{
    if entries.len() == 0 {
        Seq::empty()
    } else {
        let front = entries_where(entries.drop_last(), absolute);
        if is_absolute_path(entries.last().0) == absolute {
            front.push(entries.last())
        } else {
            front
        }
    }
}

/// The key under which a target is kept: the normal form of the target as
/// seen from the working directory `cwd`.
pub open spec fn home_key(cwd: Seq<char>, target: Seq<char>) -> Seq<char> {
    normal_form(join_paths(cwd, target))
}

/// `base` after each entry of `moved`, in order, was recorded under its
/// home key.
pub open spec fn placed(base: Entries, moved: Entries, cwd: Seq<char>) -> Entries
    decreases moved.len(),
{
    if moved.len() == 0 {
        base
    } else {
        upsert(
            placed(base, moved.drop_last(), cwd),
            home_key(cwd, moved.last().0),
            moved.last().1,
        )
    }
}

/// The entries with every relative target replaced by its home key. Entries
/// with an absolute target stay as they are and where they are; the others
/// are recorded anew, one after the other, and take the place of an entry
/// that already has their key.
pub open spec fn rekeyed(entries: Entries, cwd: Seq<char>) -> Entries {
    placed(entries_where(entries, true), entries_where(entries, false), cwd)
}

/// One entry of the registry.
#[derive(Clone, Debug, PartialEq, Eq)]
struct Slot {
    target: String,
    link: LinkDirectory,
}

/// The registry: the storage root and the entries, each under its target.
#[derive(Clone, Debug, PartialEq, Eq)]
pub struct Config {
    shm_path: String,
    configs: Vec<Slot>,
}

pub struct ConfigView {
    /// The storage root, under which backing directories are made.
    pub shm_path: Seq<char>,
    /// The entries, in the order in which they are reconciled.
    pub entries: Entries,
}

impl View for Config {
    type V = ConfigView;

    closed spec fn view(&self) -> ConfigView {
        ConfigView {
            shm_path: self.shm_path@,
            entries: self.configs@.map_values(|s: Slot| (s.target@, s.link@)),
        }
    }
}

/// The entry that `unlink` took out of the registry.
#[derive(Clone, Debug, PartialEq, Eq)]
pub struct Unlinked {
    /// The key that the entry was kept under.
    pub path: String,
    /// What was recorded for it.
    pub link: LinkDirectory,
}

/// The target that was to be removed has no entry.
#[derive(Clone, Copy, Debug, PartialEq, Eq, Structural)]
pub struct TargetNotFound;

impl Unlinked {
    /// What is left to do on disk once the entry is gone: a symbolic link at
    /// the target is removed; anything else that is there, or nothing, is
    /// left as it is.
    pub fn cleanup(&self, found: &TargetState) -> (r: Option<Request>)
        ensures
            match r {
                Some(request) => found@ is Link && request@ == (RequestView::RemoveLink {
                    path: self.path@,
                }),
                None => !(found@ is Link),
            },
    {
        match found {
            TargetState::Link(_) => Some(Request::RemoveLink { path: self.path.clone() }),
            _ => None,
        }
    }
}

impl Config {
    /// No two entries have the same target.
    pub open spec fn wf(&self) -> bool {
        distinct_keys(self@.entries)
    }

    /// A registry without entries.
    pub fn new(shm_path: String) -> (r: Config)
        ensures
            r@.shm_path == shm_path@,
            r@.entries == Entries::empty(),
            r.wf(),
    {
        let r = Config { shm_path, configs: Vec::new() };
        assert(r@.entries =~= Entries::empty());
        r
    }

    /// The storage root.
    pub fn shm_path(&self) -> (r: &String)
        ensures
            r@ == self@.shm_path,
    {
        &self.shm_path
    }

    /// The number of entries.
    pub fn len(&self) -> (n: usize)
        ensures
            n == self@.entries.len(),
    {
        self.configs.len()
    }

    /// The target of the entry at place `i`.
    pub fn target_at(&self, i: usize) -> (r: Option<&String>)
        ensures
            match r {
                Some(t) => i < self@.entries.len() && t@ == self@.entries[i as int].0,
                None => i >= self@.entries.len(),
            },
    {
        if i < self.configs.len() {
            Some(&self.configs[i].target)
        } else {
            None
        }
    }

    /// What is recorded at place `i`.
    pub fn link_at(&self, i: usize) -> (r: Option<&LinkDirectory>)
        ensures
            match r {
                Some(l) => i < self@.entries.len() && l@ == self@.entries[i as int].1,
                None => i >= self@.entries.len(),
            },
    {
        if i < self.configs.len() {
            Some(&self.configs[i].link)
        } else {
            None
        }
    }

    fn place_of(&self, key: &String) -> (r: Option<usize>)
        ensures
            match r {
                Some(i) => find(self@.entries, key@) == Some(i as int) && i < self@.entries.len(),
                None => find(self@.entries, key@) is None,
            },
    {
        let ghost entries = self@.entries;
        let mut i: usize = 0;
        assert(entries.take(0) =~= Entries::empty());
        while i < self.configs.len()
            invariant
                i <= self.configs.len(),
                entries == self@.entries,
                entries.len() == self.configs.len(),
                find(entries.take(i as int), key@) is None,
            decreases self.configs.len() - i,
        {
            proof {
                lemma_find_extends(entries, key@, i as int);
            }
            if self.configs[i].target == *key {
                proof {
                    lemma_find_stays(entries, key@, i as int + 1);
                }
                return Some(i);
            }
            i += 1;
        }
        assert(entries.take(i as int) =~= entries);
        None
    }

    /// What is recorded for `target`, if anything.
    pub fn get(&self, target: &str) -> (r: Option<&LinkDirectory>)
        ensures
            match r {
                Some(l) => lookup(self@.entries, target@) == Some(l@),
                None => lookup(self@.entries, target@) is None,
            },
    {
        let key = target.to_owned();
        match self.place_of(&key) {
            Some(i) => Some(&self.configs[i].link),
            None => None,
        }
    }

    fn put(&mut self, key: String, link: LinkDirectory)
        ensures
            final(self)@.shm_path == old(self)@.shm_path,
            final(self)@.entries == upsert(old(self)@.entries, key@, link@),
    {
        broadcast use Seq::lemma_push_map_commute;

        match self.place_of(&key) {
            Some(i) => {
                self.configs.set(i, Slot { target: key, link });
                assert(self@.entries =~= upsert(old(self)@.entries, key@, link@));
            },
            None => {
                self.configs.push(Slot { target: key, link });
            },
        }
    }

    /// Records `cfg` for `target`, in place of what was recorded for it
    /// before, if anything was. The target is kept as it is given; a pass
    /// brings a relative one to its normal absolute form. Nothing on disk is
    /// touched.
    pub fn add(&mut self, target: &str, cfg: LinkDirectory)
        requires
            old(self).wf(),
        ensures
            final(self).wf(),
            final(self)@.shm_path == old(self)@.shm_path,
            final(self)@.entries == upsert(old(self)@.entries, target@, cfg@),
            links(final(self)@.entries) == links(old(self)@.entries).insert(target@, cfg@),
    {
        let key = target.to_owned();
        proof {
            lemma_upsert_distinct(self@.entries, key@, cfg@);
            lemma_upsert_links(self@.entries, key@, cfg@);
        }
        self.put(key, cfg);
    }

    /// Takes the entry for `target` out of the registry. The target is
    /// looked up under its home key, as seen from the working directory
    /// `cwd`. Where there is no such entry, the registry stays as it is and
    /// the call fails.
    pub fn unlink(&mut self, target: &str, cwd: &str) -> (r: Result<Unlinked, TargetNotFound>)
        requires
            old(self).wf(),
        ensures
            final(self).wf(),
            final(self)@.shm_path == old(self)@.shm_path,
            final(self)@.entries == without(old(self)@.entries, home_key(cwd@, target@)),
            match r {
                Ok(gone) => gone.path@ == home_key(cwd@, target@) && lookup(
                    old(self)@.entries,
                    home_key(cwd@, target@),
                ) == Some(gone.link@),
                Err(_) => lookup(old(self)@.entries, home_key(cwd@, target@)) is None
                    && final(self)@ == old(self)@,
            },
    {
        let key = normalize(join(cwd, target).as_str());
        proof {
            lemma_without_distinct(self@.entries, key@);
        }
        match self.place_of(&key) {
            Some(i) => {
                let slot = self.configs.remove(i);
                assert(self@.entries =~= old(self)@.entries.remove(i as int));
                Ok(Unlinked { path: key, link: slot.link })
            },
            None => Err(TargetNotFound),
        }
    }

    /// Replaces what is recorded at place `i`.
    pub(crate) fn set_link(&mut self, i: usize, link: LinkDirectory)
        requires
            i < old(self)@.entries.len(),
        ensures
            final(self)@.shm_path == old(self)@.shm_path,
            final(self)@.entries == old(self)@.entries.update(
                i as int,
                (old(self)@.entries[i as int].0, link@),
            ),
            old(self).wf() ==> final(self).wf(),
    {
        let target = self.configs[i].target.clone();
        self.configs.set(i, Slot { target, link });
        assert(self@.entries =~= old(self)@.entries.update(
            i as int,
            (old(self)@.entries[i as int].0, link@),
        ));
    }

    /// Brings every relative target to its home key, as seen from `cwd`.
    pub(crate) fn rekey(&mut self, cwd: &str)
        requires
            old(self).wf(),
        ensures
            final(self).wf(),
            final(self)@.shm_path == old(self)@.shm_path,
            final(self)@.entries == rekeyed(old(self)@.entries, cwd@),
    {
        broadcast use Seq::lemma_push_map_commute;

        let ghost entries = self@.entries;
        let mut kept: Vec<Slot> = Vec::new();
        let mut moved: Vec<Slot> = Vec::new();
        let mut i: usize = 0;
        assert(entries.take(0) =~= Entries::empty());
        while i < self.configs.len()
            invariant
                i <= self.configs.len(),
                entries == self@.entries,
                entries.len() == self.configs.len(),
                kept@.map_values(|s: Slot| (s.target@, s.link@)) == entries_where(
                    entries.take(i as int),
                    true,
                ),
                moved@.map_values(|s: Slot| (s.target@, s.link@)) == entries_where(
                    entries.take(i as int),
                    false,
                ),
            decreases self.configs.len() - i,
        {
            let slot = Slot {
                target: self.configs[i].target.clone(),
                link: self.configs[i].link.duplicate(),
            };
            proof {
                let upto = entries.take(i as int + 1);
                assert(upto.drop_last() =~= entries.take(i as int));
                assert(upto.last() == (slot.target@, slot.link@));
            }
            if is_absolute(slot.target.as_str()) {
                kept.push(slot);
            } else {
                moved.push(slot);
            }
            i += 1;
        }
        assert(entries.take(i as int) =~= entries);
        let ghost base = entries_where(entries, true);
        let ghost rest = entries_where(entries, false);
        proof {
            lemma_entries_where_distinct(entries, true);
        }
        self.configs = kept;
        let mut k: usize = 0;
        assert(rest.take(0) =~= Entries::empty());
        while k < moved.len()
            invariant
                k <= moved.len(),
                rest == moved@.map_values(|s: Slot| (s.target@, s.link@)),
                self@.shm_path == old(self)@.shm_path,
                self@.entries == placed(base, rest.take(k as int), cwd@),
                self.wf(),
            decreases moved.len() - k,
        {
            let key = normalize(join(cwd, moved[k].target.as_str()).as_str());
            let link = moved[k].link.duplicate();
            proof {
                let upto = rest.take(k as int + 1);
                assert(upto.drop_last() =~= rest.take(k as int));
                assert(upto.last() == (moved@[k as int].target@, moved@[k as int].link@));
                lemma_upsert_distinct(self@.entries, key@, link@);
            }
            self.put(key, link);
            k += 1;
        }
        assert(rest.take(k as int) =~= rest);
    }
}

/// What `find` says of the entries up to place `i` and of the one at `i`
/// decides what it says of the entries up to `i + 1`.
proof fn lemma_find_extends(entries: Entries, key: Seq<char>, i: int)
    requires
        0 <= i < entries.len(),
    ensures
        find(entries.take(i + 1), key) == (match find(entries.take(i), key) {
            Some(j) => Some(j),
            None => if entries[i].0 == key {
                Some(i)
            } else {
                None
            },
        }),
{
    assert(entries.take(i + 1).drop_last() =~= entries.take(i));
}

/// A place that `find` gives among the first `n` entries is the place it
/// gives among all.
proof fn lemma_find_stays(entries: Entries, key: Seq<char>, n: int)
    requires
        0 <= n <= entries.len(),
        find(entries.take(n), key) is Some,
    ensures
        find(entries, key) == find(entries.take(n), key),
    decreases entries.len() - n,
{
    if n == entries.len() {
        assert(entries.take(n) =~= entries);
    } else {
        lemma_find_extends(entries, key, n);
        lemma_find_stays(entries, key, n + 1);
    }
}

/// `find` gives the first place that holds the key, and none only where no
/// place holds it.
pub proof fn lemma_find(entries: Entries, key: Seq<char>)
    ensures
        match find(entries, key) {
            Some(i) => 0 <= i < entries.len() && entries[i].0 == key && forall|j: int|
                0 <= j < i ==> (#[trigger] entries[j]).0 != key,
            None => forall|j: int| 0 <= j < entries.len() ==> (#[trigger] entries[j]).0 != key,
        },
    decreases entries.len(),
{
    if entries.len() > 0 {
        let front = entries.drop_last();
        lemma_find(front, key);
        match find(front, key) {
            Some(i) => {
                assert forall|j: int| 0 <= j < i implies (#[trigger] entries[j]).0 != key by {
                    assert(front[j] == entries[j]);
                }
            },
            None => {
                assert forall|j: int| 0 <= j < entries.len() - 1 implies (#[trigger] entries[j]).0
                    != key by {
                    assert(front[j] == entries[j]);
                }
            },
        }
    }
}

/// Recording an entry keeps the targets distinct.
pub proof fn lemma_upsert_distinct(entries: Entries, key: Seq<char>, link: LinkView)
    requires
        distinct_keys(entries),
    ensures
        distinct_keys(upsert(entries, key, link)),
{
    lemma_find(entries, key);
}

/// Taking an entry out keeps the targets distinct.
pub proof fn lemma_without_distinct(entries: Entries, key: Seq<char>)
    requires
        distinct_keys(entries),
    ensures
        distinct_keys(without(entries, key)),
{
    lemma_find(entries, key);
    match find(entries, key) {
        Some(i) => {
            let rest = entries.remove(i);
            assert forall|a: int, b: int| 0 <= a < b < rest.len() implies (#[trigger] rest[a]).0 != (
            #[trigger] rest[b]).0 by {
                let a0 = if a < i { a } else { a + 1 };
                let b0 = if b < i { b } else { b + 1 };
                assert(rest[a] == entries[a0]);
                assert(rest[b] == entries[b0]);
            }
        },
        None => {},
    }
}

/// After `link` is recorded for `key`, the key leads to `link` and every
/// other key to what it led to before.
pub proof fn lemma_upsert_lookup(entries: Entries, key: Seq<char>, link: LinkView, other: Seq<char>)
    ensures
        lookup(upsert(entries, key, link), other) == (if other == key {
            Some(link)
        } else {
            lookup(entries, other)
        }),
        find(upsert(entries, key, link), other) is Some <==> other == key || find(entries, other)
            is Some,
{
    let after = upsert(entries, key, link);
    lemma_find(entries, key);
    lemma_find(entries, other);
    lemma_find(after, other);
    match find(entries, key) {
        Some(i) => {
            assert(after[i] == (key, link));
            assert forall|j: int| 0 <= j < entries.len() && j != i implies after[j] == entries[j] by {}
            if other != key {
                match find(entries, other) {
                    Some(a) => {
                        assert(after[a] == entries[a]);
                        match find(after, other) {
                            Some(b) => {
                                if b < a {
                                    assert(after[b] == entries[b]);
                                }
                            },
                            None => {},
                        }
                    },
                    None => {
                        match find(after, other) {
                            Some(b) => {
                                assert(after[b] == entries[b]);
                            },
                            None => {},
                        }
                    },
                }
            } else {
                match find(after, other) {
                    Some(b) => {
                        if b < i {
                            assert(after[b] == entries[b]);
                        }
                    },
                    None => {},
                }
            }
        },
        None => {
            assert(after[entries.len() as int] == (key, link));
            assert forall|j: int| 0 <= j < entries.len() implies after[j] == entries[j] by {}
            match find(after, other) {
                Some(b) => {
                    if b < entries.len() {
                        assert(after[b] == entries[b]);
                    }
                },
                None => {},
            }
            match find(entries, other) {
                Some(a) => {
                    assert(after[a] == entries[a]);
                },
                None => {},
            }
        },
    }
}

/// Recording an entry is an insertion into the map of the entries.
pub proof fn lemma_upsert_links(entries: Entries, key: Seq<char>, link: LinkView)
    ensures
        links(upsert(entries, key, link)) == links(entries).insert(key, link),
{
    let after = upsert(entries, key, link);
    assert forall|other: Seq<char>|
        links(after).dom().contains(other) == links(entries).insert(key, link).dom().contains(
            other,
        ) by {
        lemma_upsert_lookup(entries, key, link, other);
    }
    assert forall|other: Seq<char>| #[trigger] links(after).dom().contains(other) implies links(
        after,
    )[other] == links(entries).insert(key, link)[other] by {
        lemma_upsert_lookup(entries, key, link, other);
    }
    assert(links(after) =~= links(entries).insert(key, link));
}

/// The entries picked by `entries_where` are entries of the whole, in
/// their order: distinct targets stay distinct.
proof fn lemma_entries_where_distinct(entries: Entries, absolute: bool)
    requires
        distinct_keys(entries),
    ensures
        distinct_keys(entries_where(entries, absolute)),
        forall|a: int|
            0 <= a < entries_where(entries, absolute).len() ==> exists|b: int|
                0 <= b < entries.len() && entries[b] == #[trigger] entries_where(
                    entries,
                    absolute,
                )[a],
    decreases entries.len(),
{
    if entries.len() > 0 {
        let front = entries.drop_last();
        assert(distinct_keys(front)) by {
            assert forall|i: int, j: int| 0 <= i < j < front.len() implies (#[trigger] front[i]).0
                != (#[trigger] front[j]).0 by {
                assert(front[i] == entries[i]);
                assert(front[j] == entries[j]);
            }
        }
        lemma_entries_where_distinct(front, absolute);
        let picked = entries_where(entries, absolute);
        let before = entries_where(front, absolute);
        assert forall|a: int| 0 <= a < picked.len() implies exists|b: int|
            0 <= b < entries.len() && entries[b] == #[trigger] picked[a] by {
            if a < before.len() {
                assert(picked[a] == before[a]);
                let b = choose|b: int| 0 <= b < front.len() && front[b] == before[a];
                assert(entries[b] == picked[a]);
            } else {
                assert(entries[entries.len() - 1] == picked[a]);
            }
        }
        assert forall|i: int, j: int| 0 <= i < j < picked.len() implies (#[trigger] picked[i]).0 != (
        #[trigger] picked[j]).0 by {
            if j < before.len() {
                assert(picked[i] == before[i]);
                assert(picked[j] == before[j]);
            } else {
                assert(picked[i] == before[i]);
                let b = choose|b: int| 0 <= b < front.len() && front[b] == before[i];
                assert(entries[b] == front[b]);
                assert(picked[j] == entries[entries.len() - 1]);
            }
        }
    }
}

} // verus!
