//! The dock's runtime entries: resolution of the pinned configuration against
//! the discovered applications and desktop files, reordering, and launch plans.

use vstd::prelude::*;
use vstd::string::*;
use crate::config::AppEntry;
use crate::process::ProcessKey;
use crate::desktop::{DesktopInfo, opt_view, read_desktop_entry, desktop_decodes, desktop_exec, desktop_icon, desktop_name, desktop_no_display};
use crate::text::{
    lowercase, to_lowercase, has_infix, contains_str, str_eq, views, cleaned_exec, exec_args,
};

verus! {

// ── Entries ──────────────────────────────────────────────────────────────────

/// An app inside a folder, as the dock shows it.
#[derive(Debug)]
pub struct FolderEntry {
    pub name: String,
    pub exec_line: String,
    pub args: String,
    pub icon: Option<String>,
    pub is_active: bool,
}

/// The abstract value of a [`FolderEntry`].
pub struct FolderEntryView {
    pub name: Seq<char>,
    pub exec_line: Seq<char>,
    pub args: Seq<char>,
    pub icon: Option<Seq<char>>,
    pub is_active: bool,
}

impl View for FolderEntry {
    type V = FolderEntryView;

    open spec fn view(&self) -> FolderEntryView {
        FolderEntryView {
            name: self.name@,
            exec_line: self.exec_line@,
            args: self.args@,
            icon: opt_view(self.icon),
            is_active: self.is_active,
        }
    }
}

/// One slot of the dock (runtime representation).
#[derive(Debug)]
pub struct Entry {
    pub name: String,
    pub exec_line: String,
    pub args: String,
    pub icon: Option<String>,
    pub desktop_file: Option<String>,
    pub is_active: bool,
    pub is_special: bool,
    pub is_spacer: bool,
    pub is_folder: bool,
    pub show_miniatures: bool,
    /// Apps inside a folder (only populated when is_folder = true)
    pub folder_entries: Vec<FolderEntry>,
}

/// The abstract value of an [`Entry`].
pub struct EntryView {
    pub name: Seq<char>,
    pub exec_line: Seq<char>,
    pub args: Seq<char>,
    pub icon: Option<Seq<char>>,
    pub desktop_file: Option<Seq<char>>,
    pub is_active: bool,
    pub is_special: bool,
    pub is_spacer: bool,
    pub is_folder: bool,
    pub show_miniatures: bool,
    pub folder_entries: Seq<FolderEntryView>,
}

/// The views of a sequence of folder entries.
pub open spec fn folder_views(s: Seq<FolderEntry>) -> Seq<FolderEntryView> {
    s.map_values(|f: FolderEntry| f@)
}

/// The views of a sequence of entries.
pub open spec fn entry_views(s: Seq<Entry>) -> Seq<EntryView> {
    s.map_values(|e: Entry| e@)
}

impl View for Entry {
    type V = EntryView;

    open spec fn view(&self) -> EntryView {
        EntryView {
            name: self.name@,
            exec_line: self.exec_line@,
            args: self.args@,
            icon: opt_view(self.icon),
            desktop_file: opt_view(self.desktop_file),
            is_active: self.is_active,
            is_special: self.is_special,
            is_spacer: self.is_spacer,
            is_folder: self.is_folder,
            show_miniatures: self.show_miniatures,
            folder_entries: folder_views(self.folder_entries@),
        }
    }
}

/// A copy of an optional string.
pub fn copy_opt(o: &Option<String>) -> (r: Option<String>)
    ensures
        opt_view(r) == opt_view(*o),
{
    match o {
        Some(s) => Some(s.clone()),
        None => None,
    }
}

impl FolderEntry {
    /// A copy of this folder entry.
    pub fn duplicate(&self) -> (r: FolderEntry)
        ensures
            r@ == self@,
    {
        FolderEntry {
            name: self.name.clone(),
            exec_line: self.exec_line.clone(),
            args: self.args.clone(),
            icon: copy_opt(&self.icon),
            is_active: self.is_active,
        }
    }
}

impl Entry {
    /// A copy of this entry.
    pub fn duplicate(&self) -> (r: Entry)
        ensures
            r@ == self@,
    {
        let mut fes: Vec<FolderEntry> = Vec::new();
        for i in 0..self.folder_entries.len()
            invariant
                folder_views(fes@) == folder_views(self.folder_entries@).take(i as int),
        {
            let f = self.folder_entries[i].duplicate();
            let ghost before = fes@;
            fes.push(f);
            assert(folder_views(fes@) == folder_views(before).push(f@));
            assert(folder_views(self.folder_entries@).take(i + 1)
                == folder_views(self.folder_entries@).take(i as int).push(self.folder_entries@[i as int]@));
        }
        assert(folder_views(self.folder_entries@).take(self.folder_entries@.len() as int)
            == folder_views(self.folder_entries@));
        Entry {
            name: self.name.clone(),
            exec_line: self.exec_line.clone(),
            args: self.args.clone(),
            icon: copy_opt(&self.icon),
            desktop_file: copy_opt(&self.desktop_file),
            is_active: self.is_active,
            is_special: self.is_special,
            is_spacer: self.is_spacer,
            is_folder: self.is_folder,
            show_miniatures: self.show_miniatures,
            folder_entries: fes,
        }
    }
}

/// A plain app slot with the given texts and every flag off.
pub open spec fn app_view(
    name: Seq<char>,
    exec_line: Seq<char>,
    args: Seq<char>,
    icon: Option<Seq<char>>,
    desktop_file: Option<Seq<char>>,
) -> EntryView {
    EntryView {
        name,
        exec_line,
        args,
        icon,
        desktop_file,
        is_active: false,
        is_special: false,
        is_spacer: false,
        is_folder: false,
        show_miniatures: false,
        folder_entries: seq![],
    }
}

// ── Keyed lists ──────────────────────────────────────────────────────────────

/// No key occurs twice.
pub open spec fn keys_distinct<T>(c: Seq<(Seq<char>, T)>) -> bool {
    forall|i: int, j: int| 0 <= i < c.len() && 0 <= j < c.len() && i != j ==> c[i].0 != c[j].0
}

/// The key occurs at position `i`.
pub open spec fn key_at<T>(c: Seq<(Seq<char>, T)>, key: Seq<char>, i: int) -> bool {
    0 <= i < c.len() && c[i].0 == key
}

/// The value stored under `key`, if any.
pub open spec fn lookup<T>(c: Seq<(Seq<char>, T)>, key: Seq<char>) -> Option<T> {
    if exists|i: int| key_at(c, key, i) {
        Some(c[choose|i: int| key_at(c, key, i)].1)
    } else {
        None
    }
}

/// The list with `key` mapped to `v`: an existing pair is replaced in place,
/// a new key goes at the end.
pub open spec fn store<T>(c: Seq<(Seq<char>, T)>, key: Seq<char>, v: T) -> Seq<(Seq<char>, T)> {
    if exists|i: int| key_at(c, key, i) {
        c.update(choose|i: int| key_at(c, key, i), (key, v))
    } else {
        c.push((key, v))
    }
}

pub(crate) proof fn lemma_lookup_at<T>(c: Seq<(Seq<char>, T)>, key: Seq<char>, i: int)
    requires
        keys_distinct(c),
        key_at(c, key, i),
    ensures
        lookup(c, key) == Some(c[i].1),
        (choose|j: int| key_at(c, key, j)) == i,
{
}

pub(crate) proof fn lemma_store_distinct<T>(c: Seq<(Seq<char>, T)>, key: Seq<char>, v: T)
    requires
        keys_distinct(c),
    ensures
        keys_distinct(store(c, key, v)),
{
    if exists|i: int| key_at(c, key, i) {
        let k = choose|i: int| key_at(c, key, i);
        let d = c.update(k, (key, v));
        assert forall|i: int, j: int| 0 <= i < d.len() && 0 <= j < d.len() && i != j implies d[i].0
            != d[j].0 by {
            assert(d[i].0 == c[i].0);
            assert(d[j].0 == c[j].0);
        }
    } else {
        let d = c.push((key, v));
        assert forall|i: int, j: int| 0 <= i < d.len() && 0 <= j < d.len() && i != j implies d[i].0
            != d[j].0 by {
            if i == c.len() {
                assert(!key_at(c, key, j));
            } else if j == c.len() {
                assert(!key_at(c, key, i));
            }
        }
    }
}

/// What was stored under a key is what a lookup of that key finds, and other
/// keys keep what they had.
pub proof fn lookup_after_store<T>(c: Seq<(Seq<char>, T)>, key: Seq<char>, v: T, other: Seq<char>)
    requires
        keys_distinct(c),
    ensures
        lookup(store(c, key, v), key) == Some(v),
        other != key ==> lookup(store(c, key, v), other) == lookup(c, other),
{
    lemma_store_distinct(c, key, v);
    let d = store(c, key, v);
    if exists|i: int| key_at(c, key, i) {
        let k = choose|i: int| key_at(c, key, i);
        lemma_lookup_at(d, key, k);
        if other != key {
            if exists|i: int| key_at(c, other, i) {
                let j = choose|i: int| key_at(c, other, i);
                assert(key_at(d, other, j));
                lemma_lookup_at(d, other, j);
                lemma_lookup_at(c, other, j);
            } else {
                assert forall|i: int| !key_at(d, other, i) by {
                    if 0 <= i < d.len() {
                        if i == k {
                            assert(d[i].0 == key);
                        } else {
                            assert(d[i] == c[i]);
                            assert(!key_at(c, other, i));
                        }
                    }
                }
            }
        }
    } else {
        lemma_lookup_at(d, key, c.len() as int);
        if other != key {
            if exists|i: int| key_at(c, other, i) {
                let j = choose|i: int| key_at(c, other, i);
                assert(key_at(d, other, j));
                lemma_lookup_at(d, other, j);
                lemma_lookup_at(c, other, j);
            } else {
                assert forall|i: int| !key_at(d, other, i) by {
                    if 0 <= i < c.len() {
                        assert(d[i] == c[i]);
                        assert(!key_at(c, other, i));
                    } else if i == c.len() {
                        assert(d[i].0 == key);
                    }
                }
            }
        }
    }
}

/// Two keys match loosely when one of them contains the other.
pub open spec fn fuzzy_match(k: Seq<char>, key: Seq<char>) -> bool {
    has_infix(k, key) || has_infix(key, k)
}

/// Position `i` is the first whose key matches `key` loosely.
pub open spec fn first_fuzzy<T>(c: Seq<(Seq<char>, T)>, key: Seq<char>, i: int) -> bool {
    0 <= i < c.len() && fuzzy_match(c[i].0, key) && forall|j: int|
        0 <= j < i ==> !fuzzy_match(#[trigger] c[j].0, key)
}

/// The first value whose key contains `key` or is contained in it.
pub open spec fn fuzzy_lookup<T>(c: Seq<(Seq<char>, T)>, key: Seq<char>) -> Option<T> {
    if exists|i: int| first_fuzzy(c, key, i) {
        Some(c[choose|i: int| first_fuzzy(c, key, i)].1)
    } else {
        None
    }
}

/// The views of a keyed list of entries.
pub open spec fn keyed_views(s: Seq<(String, Entry)>) -> Seq<(Seq<char>, EntryView)> {
    s.map_values(|p: (String, Entry)| (p.0@, p.1@))
}

/// The views of a keyed list of optional entries.
pub open spec fn keyed_opt_views(s: Seq<(String, Option<Entry>)>) -> Seq<(Seq<char>, Option<EntryView>)> {
    s.map_values(|p: (String, Option<Entry>)| (p.0@, match p.1 { Some(e) => Some(e@), None => None }))
}

/// Finds the position of `key`, if present.
fn find_key(keys: &Vec<(String, Entry)>, key: &String) -> (r: Option<usize>)
    ensures
        match r {
            Some(i) => key_at(keyed_views(keys@), key@, i as int),
            None => !exists|i: int| key_at(keyed_views(keys@), key@, i),
        },
{
    for i in 0..keys.len()
        invariant
            forall|j: int| 0 <= j < i ==> !key_at(keyed_views(keys@), key@, j),
    {
        if keys[i].0 == *key {
            return Some(i);
        }
    }
    None
}

/// The applications found on the system, keyed by their lower-cased name.
pub struct AppCatalog {
    apps: Vec<(String, Entry)>,
}

/// A discovered app: not special, not a spacer, not a folder, not running, and
/// with no folder apps.
pub open spec fn is_discovered_app(e: EntryView) -> bool {
    !e.is_special && !e.is_spacer && !e.is_folder && !e.is_active && e.folder_entries.len() == 0
}

impl View for AppCatalog {
    type V = Seq<(Seq<char>, EntryView)>;

    closed spec fn view(&self) -> Seq<(Seq<char>, EntryView)> {
        keyed_views(self.apps@)
    }
}

/// The catalog's invariant: distinct keys, every value a discovered app.
pub open spec fn catalog_ok(c: Seq<(Seq<char>, EntryView)>) -> bool {
    keys_distinct(c) && forall|i: int| 0 <= i < c.len() ==> is_discovered_app(#[trigger] c[i].1)
}

/// What discovery adds for a decoded desktop file: nothing when it is hidden or
/// has no command; else an app named by its `Name` (`Unknown` without one),
/// stored under the lower-cased name.
pub open spec fn discovered(
    c: Seq<(Seq<char>, EntryView)>,
    path: Seq<char>,
    name: Option<Seq<char>>,
    exec_line: Option<Seq<char>>,
    icon: Option<Seq<char>>,
    no_display: bool,
) -> Seq<(Seq<char>, EntryView)> {
    let n = match name { Some(n) => n, None => "Unknown"@ };
    let x = match exec_line { Some(x) => x, None => seq![] };
    if no_display || x.len() == 0 {
        c
    } else {
        store(c, lowercase(n), app_view(n, x, seq![], icon, Some(path)))
    }
}

impl AppCatalog {
    #[verifier::type_invariant]
    spec fn inv(&self) -> bool {
        catalog_ok(self@)
    }

    /// An empty catalog.
    pub fn new() -> (r: Self)
        ensures
            r@ == Seq::<(Seq<char>, EntryView)>::empty(),
    {
        let r = AppCatalog { apps: Vec::new() };
        assert(r@ == Seq::<(Seq<char>, EntryView)>::empty());
        r
    }

    /// The number of discovered apps.
    pub fn len(&self) -> (r: usize)
        ensures
            r == self@.len(),
    {
        self.apps.len()
    }

    /// Records a decoded desktop file found during discovery.
    pub fn add_discovered(&mut self, path: String, info: DesktopInfo)
        ensures
            final(self)@ == discovered(old(self)@, path@, opt_view(info.name),
                opt_view(info.exec_line), opt_view(info.icon), info.no_display),
    {
        proof { use_type_invariant(&*self); }
        if info.no_display {
            return;
        }
        let name = match info.name {
            Some(n) => n,
            None => String::from_str("Unknown"),
        };
        let exec_line = match info.exec_line {
            Some(x) => x,
            None => String::new(),
        };
        if exec_line.as_str().is_empty() {
            return;
        }
        let key = to_lowercase(name.as_str());
        let entry = Entry {
            name,
            exec_line,
            args: String::new(),
            icon: info.icon,
            desktop_file: Some(path),
            is_active: false,
            is_special: false,
            is_spacer: false,
            is_folder: false,
            show_miniatures: false,
            folder_entries: Vec::new(),
        };
        assert(folder_views(entry.folder_entries@) == Seq::<FolderEntryView>::empty());
        let ghost ev = entry@;
        let ghost kv = key@;
        let ghost before = self@;
        let mut apps: Vec<(String, Entry)> = Vec::new();
        std::mem::swap(&mut apps, &mut self.apps);
        assert(keyed_views(apps@) == before);
        match find_key(&apps, &key) {
            Some(i) => {
                proof { lemma_lookup_at(before, kv, i as int); }
                apps.set(i, (key, entry));
                assert(keyed_views(apps@) == before.update(i as int, (kv, ev)));
            }
            None => {
                apps.push((key, entry));
                assert(keyed_views(apps@) == before.push((kv, ev)));
            }
        }
        proof { lemma_store_distinct(before, kv, ev); }
        self.apps = apps;
    }

    /// Decodes a desktop file found during discovery and records it.
    pub fn discover_file(&mut self, path: String, content: &str)
        ensures
            !desktop_decodes(path@, content@) ==> final(self)@ == old(self)@,
            desktop_decodes(path@, content@) ==> final(self)@ == discovered(old(self)@, path@,
                desktop_name(path@, content@), desktop_exec(path@, content@), desktop_icon(path@, content@),
                desktop_no_display(path@, content@)),
    {
        match read_desktop_entry(path.as_str(), content) {
            Some(info) => {
                self.add_discovered(path, info);
            }
            None => {}
        }
    }

    /// The app stored under exactly this key.
    pub fn get(&self, key: &String) -> (r: Option<&Entry>)
        ensures
            match r {
                Some(e) => lookup(self@, key@) == Some(e@),
                None => lookup(self@, key@) is None,
            },
    {
        proof { use_type_invariant(self); }
        match find_key(&self.apps, key) {
            Some(i) => {
                proof { lemma_lookup_at(self@, key@, i as int); }
                Some(&self.apps[i].1)
            }
            None => None,
        }
    }

    /// The first app whose key contains `key` or is contained in it.
    pub fn find_fuzzy(&self, key: &String) -> (r: Option<&Entry>)
        ensures
            match r {
                Some(e) => fuzzy_lookup(self@, key@) == Some(e@),
                None => fuzzy_lookup(self@, key@) is None,
            },
    {
        for i in 0..self.apps.len()
            invariant
                forall|j: int| 0 <= j < i ==> !fuzzy_match(#[trigger] self@[j].0, key@),
        {
            if contains_str(self.apps[i].0.as_str(), key.as_str())
                || contains_str(key.as_str(), self.apps[i].0.as_str()) {
                assert(first_fuzzy(self@, key@, i as int));
                return Some(&self.apps[i].1);
            }
        }
        None
    }
}

// ── Desktop files named in the configuration ────────────────────────────────

/// The app slot read from a desktop file: it needs both a name and a command.
pub open spec fn desktop_slot(
    path: Seq<char>,
    name: Option<Seq<char>>,
    exec_line: Option<Seq<char>>,
    icon: Option<Seq<char>>,
) -> Option<EntryView> {
    match (name, exec_line) {
        (Some(n), Some(x)) => Some(app_view(n, x, seq![], icon, Some(path))),
        _ => None,
    }
}

/// The slot read from a decoded desktop file, or nothing when it did not decode.
pub open spec fn info_slot(path: Seq<char>, info: Option<DesktopInfo>) -> Option<EntryView> {
    match info {
        Some(i) => desktop_slot(path, opt_view(i.name), opt_view(i.exec_line), opt_view(i.icon)),
        None => None,
    }
}

/// The view of an optional entry.
pub open spec fn opt_entry_view(o: Option<Entry>) -> Option<EntryView> {
    match o {
        Some(e) => Some(e@),
        None => None,
    }
}

/// The app slot a decoded desktop file gives: `None` without a name or a command.
pub fn entry_from_desktop(path: String, info: Option<DesktopInfo>) -> (r: Option<Entry>)
    ensures
        opt_entry_view(r) == info_slot(path@, info),
{
    let info = match info {
        Some(i) => i,
        None => return None,
    };
    let name = match info.name {
        Some(n) => n,
        None => return None,
    };
    let exec_line = match info.exec_line {
        Some(x) => x,
        None => return None,
    };
    let e = Entry {
        name,
        exec_line,
        args: String::new(),
        icon: info.icon,
        desktop_file: Some(path),
        is_active: false,
        is_special: false,
        is_spacer: false,
        is_folder: false,
        show_miniatures: false,
        folder_entries: Vec::new(),
    };
    assert(folder_views(e.folder_entries@) == Seq::<FolderEntryView>::empty());
    Some(e)
}

fn find_path(files: &Vec<(String, Option<Entry>)>, key: &str) -> (r: Option<usize>)
    ensures
        match r {
            Some(i) => key_at(keyed_opt_views(files@), key@, i as int),
            None => !exists|i: int| key_at(keyed_opt_views(files@), key@, i),
        },
{
    for i in 0..files.len()
        invariant
            forall|j: int| 0 <= j < i ==> !key_at(keyed_opt_views(files@), key@, j),
    {
        if str_eq(files[i].0.as_str(), key) {
            return Some(i);
        }
    }
    None
}

/// The desktop files that the pinned configuration names, read and decoded.
pub struct DesktopCache {
    files: Vec<(String, Option<Entry>)>,
}

impl View for DesktopCache {
    type V = Seq<(Seq<char>, Option<EntryView>)>;

    closed spec fn view(&self) -> Seq<(Seq<char>, Option<EntryView>)> {
        keyed_opt_views(self.files@)
    }
}

/// The cache's invariant: one slot per path, every slot a plain app.
pub open spec fn cache_ok(c: Seq<(Seq<char>, Option<EntryView>)>) -> bool {
    keys_distinct(c) && forall|i: int| 0 <= i < c.len() ==> (#[trigger] c[i].1 matches Some(e)
        ==> is_discovered_app(e))
}

/// What a path gives: its recorded slot, nothing for a path never recorded.
pub open spec fn cached_slot(c: Seq<(Seq<char>, Option<EntryView>)>, path: Seq<char>) -> Option<EntryView> {
    match lookup(c, path) {
        Some(o) => o,
        None => None,
    }
}

impl DesktopCache {
    #[verifier::type_invariant]
    spec fn inv(&self) -> bool {
        cache_ok(self@)
    }

    /// No desktop file read yet.
    pub fn new() -> (r: Self)
        ensures
            r@ == Seq::<(Seq<char>, Option<EntryView>)>::empty(),
    {
        let r = DesktopCache { files: Vec::new() };
        assert(r@ == Seq::<(Seq<char>, Option<EntryView>)>::empty());
        r
    }

    /// Records what a desktop file at `path` decoded to.
    pub fn record(&mut self, path: String, info: Option<DesktopInfo>)
        ensures
            final(self)@ == store(old(self)@, path@, info_slot(path@, info)),
    {
        proof { use_type_invariant(&*self); }
        let ghost pv = path@;
        let ghost sv = info_slot(path@, info);
        let slot = entry_from_desktop(path.clone(), info);
        let ghost before = self@;
        let mut files: Vec<(String, Option<Entry>)> = Vec::new();
        std::mem::swap(&mut files, &mut self.files);
        assert(keyed_opt_views(files@) == before);
        match find_path(&files, path.as_str()) {
            Some(i) => {
                proof { lemma_lookup_at(before, pv, i as int); }
                files.set(i, (path, slot));
                assert(keyed_opt_views(files@) == before.update(i as int, (pv, sv)));
            }
            None => {
                files.push((path, slot));
                assert(keyed_opt_views(files@) == before.push((pv, sv)));
            }
        }
        proof { lemma_store_distinct(before, pv, sv); }
        self.files = files;
    }

    /// Decodes the desktop file at `path` and records what it gives.
    pub fn load(&mut self, path: String, content: &str)
        ensures
            !desktop_decodes(path@, content@) ==> final(self)@ == store(old(self)@, path@, None),
            desktop_decodes(path@, content@) ==> final(self)@ == store(old(self)@, path@, desktop_slot(path@,
                desktop_name(path@, content@), desktop_exec(path@, content@), desktop_icon(path@, content@))),
    {
        let info = read_desktop_entry(path.as_str(), content);
        self.record(path, info);
    }

    /// The app slot read from the desktop file at `path`, if it gave one.
    pub fn lookup(&self, path: &str) -> (r: Option<Entry>)
        ensures
            opt_entry_view(r) == cached_slot(self@, path@),
            r matches Some(e) ==> is_discovered_app(e@),
    {
        proof { use_type_invariant(self); }
        match find_path(&self.files, path) {
            Some(i) => {
                proof { lemma_lookup_at(self@, path@, i as int); }
                match &self.files[i].1 {
                    Some(e) => Some(e.duplicate()),
                    None => None,
                }
            }
            None => None,
        }
    }
}

// ── Resolution of the pinned configuration ──────────────────────────────────

/// The icon given to a resolved app: the custom icon file if any, else the
/// icon-theme name if it is not empty.
pub open spec fn make_icon(custom: Option<Seq<char>>, fallback: Seq<char>) -> Option<Seq<char>> {
    match custom {
        Some(c) => Some(c),
        None => if fallback.len() > 0 { Some(fallback) } else { None },
    }
}

/// A discovered app with the configured icon and arguments laid over it.
pub open spec fn with_overrides(a: EntryView, icon: Option<Seq<char>>, args: Seq<char>) -> EntryView {
    EntryView {
        icon: if icon is Some { icon } else { a.icon },
        args: if args.len() > 0 { args } else { a.args },
        ..a
    }
}

/// The slot of a configured app. First choice: its desktop file, with the
/// configured command, arguments, icon and name laid over it (the name unless
/// it is empty or `New App`). Second: the configured command as it stands.
/// Third: the discovered app stored under the lower-cased name, then the first
/// whose key contains that name or is contained in it. Last: a slot with no
/// command.
pub open spec fn resolved_app(
    name: Seq<char>,
    exec_line: Seq<char>,
    args: Seq<char>,
    icon: Seq<char>,
    custom: Option<Seq<char>>,
    desktop_file: Option<Seq<char>>,
    cat: Seq<(Seq<char>, EntryView)>,
    cache: Seq<(Seq<char>, Option<EntryView>)>,
) -> EntryView {
    let icon_o = make_icon(custom, icon);
    let loaded = match desktop_file {
        Some(df) => cached_slot(cache, df),
        None => None,
    };
    match loaded {
        Some(e) => EntryView {
            name: if name.len() > 0 && name != "New App"@ { name } else { e.name },
            exec_line: if exec_line.len() > 0 { exec_line } else { e.exec_line },
            args: if args.len() > 0 { args } else { e.args },
            icon: if icon_o is Some { icon_o } else { e.icon },
            ..e
        },
        None => if exec_line.len() > 0 {
            app_view(name, exec_line, args, icon_o, None)
        } else {
            let key = lowercase(name);
            match lookup(cat, key) {
                Some(a) => with_overrides(a, icon_o, args),
                None => match fuzzy_lookup(cat, key) {
                    Some(a) => with_overrides(a, icon_o, args),
                    None => app_view(name, seq![], args, icon_o, None),
                },
            }
        },
    }
}

/// The slot of an app inside a folder: the configured values, completed from
/// its desktop file (command and icon when missing, name when empty or
/// `New App`), then from the discovered app of the same lower-cased name when
/// the command is still missing.
pub open spec fn resolved_folder_app(
    name: Seq<char>,
    exec_line: Seq<char>,
    args: Seq<char>,
    icon: Seq<char>,
    custom: Option<Seq<char>>,
    desktop_file: Option<Seq<char>>,
    cat: Seq<(Seq<char>, EntryView)>,
    cache: Seq<(Seq<char>, Option<EntryView>)>,
) -> FolderEntryView {
    let fe0 = FolderEntryView {
        name,
        exec_line,
        args,
        icon: make_icon(custom, icon),
        is_active: false,
    };
    let loaded = match desktop_file {
        Some(df) => cached_slot(cache, df),
        None => None,
    };
    let fe1 = match loaded {
        Some(e) => FolderEntryView {
            exec_line: if fe0.exec_line.len() == 0 { e.exec_line } else { fe0.exec_line },
            icon: if fe0.icon is None { e.icon } else { fe0.icon },
            name: if fe0.name.len() == 0 || fe0.name == "New App"@ { e.name } else { fe0.name },
            ..fe0
        },
        None => fe0,
    };
    if fe1.exec_line.len() == 0 {
        match lookup(cat, lowercase(name)) {
            Some(d) => FolderEntryView {
                exec_line: d.exec_line,
                icon: if fe1.icon is None { d.icon } else { fe1.icon },
                ..fe1
            },
            None => fe1,
        }
    } else {
        fe1
    }
}

/// The folder slot of a configured entry: apps only; spacers and nested
/// folders are dropped.
pub open spec fn folder_app_slot(
    a: AppEntry,
    cat: Seq<(Seq<char>, EntryView)>,
    cache: Seq<(Seq<char>, Option<EntryView>)>,
) -> Option<FolderEntryView> {
    match a {
        AppEntry::App { name, exec_line, args, icon, custom_icon_path, desktop_file } => Some(
            resolved_folder_app(name@, exec_line@, args@, icon@, opt_view(custom_icon_path),
                opt_view(desktop_file), cat, cache),
        ),
        _ => None,
    }
}

/// The slots of the apps of a folder, in order.
pub open spec fn folder_slots(
    apps: Seq<AppEntry>,
    cat: Seq<(Seq<char>, EntryView)>,
    cache: Seq<(Seq<char>, Option<EntryView>)>,
) -> Seq<FolderEntryView>
    decreases apps.len(),
{
    if apps.len() == 0 {
        seq![]
    } else {
        let rest = folder_slots(apps.drop_last(), cat, cache);
        match folder_app_slot(apps.last(), cat, cache) {
            Some(f) => rest.push(f),
            None => rest,
        }
    }
}

/// The slot of a spacer.
pub open spec fn spacer_slot() -> EntryView {
    EntryView { is_spacer: true, ..app_view("Spacer"@, seq![], seq![], None, None) }
}

/// The slot of one configured entry.
pub open spec fn pinned_slot(
    p: AppEntry,
    cat: Seq<(Seq<char>, EntryView)>,
    cache: Seq<(Seq<char>, Option<EntryView>)>,
) -> EntryView {
    match p {
        AppEntry::Spacer => spacer_slot(),
        AppEntry::Folder { name, icon, apps, show_miniatures } => EntryView {
            icon: opt_view(icon),
            is_folder: true,
            show_miniatures,
            folder_entries: folder_slots(apps@, cat, cache),
            ..app_view(name@, seq![], seq![], None, None)
        },
        AppEntry::App { name, exec_line, args, icon, custom_icon_path, desktop_file } =>
            resolved_app(name@, exec_line@, args@, icon@, opt_view(custom_icon_path),
                opt_view(desktop_file), cat, cache),
    }
}

/// The slots of the configured entries, in order.
pub open spec fn pinned_slots(
    ps: Seq<AppEntry>,
    cat: Seq<(Seq<char>, EntryView)>,
    cache: Seq<(Seq<char>, Option<EntryView>)>,
) -> Seq<EntryView> {
    ps.map_values(|p: AppEntry| pinned_slot(p, cat, cache))
}

/// Two neighbouring slots that are merged: neither a spacer, same name.
pub open spec fn same_slot(a: EntryView, b: EntryView) -> bool {
    !a.is_spacer && !b.is_spacer && a.name == b.name
}

/// The slots with each run of merged neighbours reduced to its first slot.
pub open spec fn dedup_slots(s: Seq<EntryView>) -> Seq<EntryView>
    decreases s.len(),
{
    if s.len() == 0 {
        s
    } else {
        let d = dedup_slots(s.drop_last());
        if d.len() > 0 && same_slot(s.last(), d.last()) {
            d
        } else {
            d.push(s.last())
        }
    }
}

/// The settings button at the end of the dock.
pub open spec fn settings_slot() -> EntryView {
    EntryView { is_special: true, ..app_view("Settings"@, "internal:config"@, seq![], None, None) }
}

/// The icon of a configured app.
pub fn make_icon_exec(custom: &Option<String>, fallback: &str) -> (r: Option<String>)
    ensures
        opt_view(r) == make_icon(opt_view(*custom), fallback@),
{
    match custom {
        Some(c) => Some(c.clone()),
        None => if !fallback.is_empty() { Some(String::from_str(fallback)) } else { None },
    }
}

/// Keeps the first of each run of neighbouring slots that are merged.
pub fn dedup_entries(v: &Vec<Entry>) -> (r: Vec<Entry>)
    ensures
        entry_views(r@) == dedup_slots(entry_views(v@)),
{
    let mut out: Vec<Entry> = Vec::new();
    for i in 0..v.len()
        invariant
            entry_views(out@) == dedup_slots(entry_views(v@).take(i as int)),
    {
        let ghost pre = entry_views(v@).take(i as int);
        assert(entry_views(v@).take(i + 1).drop_last() == pre);
        assert(entry_views(v@).take(i + 1).last() == v@[i as int]@);
        let skip = out.len() > 0 && !v[i].is_spacer && !out[out.len() - 1].is_spacer
            && v[i].name == out[out.len() - 1].name;
        if !skip {
            let e = v[i].duplicate();
            let ghost before = entry_views(out@);
            out.push(e);
            assert(entry_views(out@) == before.push(e@));
        }
    }
    assert(entry_views(v@).take(v@.len() as int) == entry_views(v@));
    out
}

// ── The launcher ─────────────────────────────────────────────────────────────

/// The dock's slots, built from the pinned configuration, with the discovered
/// applications and the desktop files it was resolved against.
pub struct AppLauncher {
    entries: Vec<Entry>,
    catalog: AppCatalog,
    desktop: DesktopCache,
    debug: bool,
}

/// The settings button is the last slot and the only special one.
pub open spec fn settings_last(s: Seq<EntryView>) -> bool {
    s.len() > 0 && s.last().is_special && forall|i: int| 0 <= i < s.len() - 1 ==> !(#[trigger] s[i]).is_special
}

impl AppLauncher {
    /// The dock's slots.
    pub closed spec fn slots(&self) -> Seq<EntryView> {
        entry_views(self.entries@)
    }

    /// Whether diagnostics are printed.
    pub closed spec fn debug_on(&self) -> bool {
        self.debug
    }

    /// The discovered applications.
    pub closed spec fn catalog(&self) -> Seq<(Seq<char>, EntryView)> {
        self.catalog@
    }

    /// The desktop files named in the configuration.
    pub closed spec fn desktop_files(&self) -> Seq<(Seq<char>, Option<EntryView>)> {
        self.desktop@
    }

    /// The dock's slots, in order.
    pub fn entries(&self) -> (r: &Vec<Entry>)
        ensures
            entry_views(r@) == self.slots(),
    {
        &self.entries
    }

    /// Whether diagnostics are printed.
    pub fn debug(&self) -> (r: bool)
        ensures
            r == self.debug_on(),
    {
        self.debug
    }

    /// Builds the dock's slots: one per configured entry, neighbours of the same
    /// name merged, and the settings button last.
    pub fn new(pinned_apps: Vec<AppEntry>, debug: bool, catalog: AppCatalog, desktop_files: DesktopCache) -> (r: Self)
        ensures
            r.slots() == dedup_slots(pinned_slots(pinned_apps@, catalog@, desktop_files@)).push(
                settings_slot(),
            ),
            settings_last(r.slots()),
            folder_apps_only_in_folders(r.slots()),
            r.catalog() == catalog@,
            r.desktop_files() == desktop_files@,
            r.debug_on() == debug,
    {
        proof {
            use_type_invariant(&catalog);
            use_type_invariant(&desktop_files);
            new_dock_ends_with_settings(pinned_apps@, catalog@, desktop_files@);
            lemma_pinned_folder_apps(pinned_apps@, catalog@, desktop_files@);
            lemma_dedup_keeps_folder_apps(pinned_slots(pinned_apps@, catalog@, desktop_files@));
            let d = dedup_slots(pinned_slots(pinned_apps@, catalog@, desktop_files@));
            assert forall|i: int| 0 <= i < d.push(settings_slot()).len() && !(#[trigger] d.push(settings_slot())[i]).is_folder
                implies d.push(settings_slot())[i].folder_entries.len() == 0 by {
                if i < d.len() {
                    assert(d.push(settings_slot())[i] == d[i]);
                }
            }
        }
        let mut launcher = AppLauncher { entries: Vec::new(), catalog, desktop: desktop_files, debug };
        assert(launcher.slots() == Seq::<EntryView>::empty());
        launcher.filter_pinned_apps(pinned_apps);
        assert(Seq::<EntryView>::empty() + pinned_slots(pinned_apps@, catalog@, desktop_files@)
            == pinned_slots(pinned_apps@, catalog@, desktop_files@));
        launcher.add_config_button();
        launcher
    }

    /// Appends one slot per configured entry and merges neighbouring slots of
    /// the same name.
    pub fn filter_pinned_apps(&mut self, pinned: Vec<AppEntry>)
        ensures
            final(self).slots() == dedup_slots(old(self).slots() + pinned_slots(pinned@,
                old(self).catalog(), old(self).desktop_files())),
            final(self).catalog() == old(self).catalog(),
            final(self).desktop_files() == old(self).desktop_files(),
            final(self).debug_on() == old(self).debug_on(),
    {
        let ghost start = self.slots();
        let ghost cat = self.catalog@;
        let ghost cache = self.desktop@;
        for i in 0..pinned.len()
            invariant
                self.slots() == start + pinned_slots(pinned@, cat, cache).take(i as int),
                self.catalog@ == cat,
                self.desktop@ == cache,
                self.debug == old(self).debug,
        {
            let e = self.pinned_entry(&pinned[i]);
            let ghost before = self.slots();
            self.entries.push(e);
            assert(self.slots() == before.push(e@));
            assert(pinned_slots(pinned@, cat, cache).take(i + 1) == pinned_slots(pinned@, cat, cache).take(
                i as int).push(pinned_slot(pinned@[i as int], cat, cache)));
        }
        assert(pinned_slots(pinned@, cat, cache).take(pinned@.len() as int) == pinned_slots(pinned@, cat, cache));
        self.entries = dedup_entries(&self.entries);
    }

    fn pinned_entry(&self, p: &AppEntry) -> (r: Entry)
        ensures
            r@ == pinned_slot(*p, self.catalog@, self.desktop@),
    {
        match p {
            AppEntry::Spacer => {
                let e = Entry {
                    name: String::from_str("Spacer"),
                    exec_line: String::new(),
                    args: String::new(),
                    icon: None,
                    desktop_file: None,
                    is_active: false,
                    is_special: false,
                    is_spacer: true,
                    is_folder: false,
                    show_miniatures: false,
                    folder_entries: Vec::new(),
                };
                assert(folder_views(e.folder_entries@) == Seq::<FolderEntryView>::empty());
                e
            },
            AppEntry::Folder { name, icon, apps, show_miniatures } => {
                let mut fes: Vec<FolderEntry> = Vec::new();
                for i in 0..apps.len()
                    invariant
                        folder_views(fes@) == folder_slots(apps@.take(i as int), self.catalog@, self.desktop@),
                {
                    assert(apps@.take(i + 1).drop_last() == apps@.take(i as int));
                    match self.resolve_config_app_to_folder_entry(&apps[i]) {
                        Some(fe) => {
                            let ghost before = folder_views(fes@);
                            fes.push(fe);
                            assert(folder_views(fes@) == before.push(fe@));
                        },
                        None => {},
                    }
                }
                assert(apps@.take(apps@.len() as int) == apps@);
                Entry {
                    name: name.clone(),
                    exec_line: String::new(),
                    args: String::new(),
                    icon: copy_opt(icon),
                    desktop_file: None,
                    is_active: false,
                    is_special: false,
                    is_spacer: false,
                    is_folder: true,
                    show_miniatures: *show_miniatures,
                    folder_entries: fes,
                }
            },
            AppEntry::App { name, exec_line, args, icon, custom_icon_path, desktop_file } => {
                self.resolve_app(name.as_str(), exec_line.as_str(), args.as_str(), icon.as_str(),
                    custom_icon_path, desktop_file)
            },
        }
    }

    /// The folder slot of a configured entry; `None` for spacers and folders.
    pub fn resolve_config_app_to_folder_entry(&self, config: &AppEntry) -> (r: Option<FolderEntry>)
        ensures
            match r {
                Some(f) => folder_app_slot(*config, self.catalog(), self.desktop_files()) == Some(f@),
                None => folder_app_slot(*config, self.catalog(), self.desktop_files()) is None,
            },
    {
        match config {
            AppEntry::App { name, exec_line, args, icon, custom_icon_path, desktop_file } => {
                let mut fe = FolderEntry {
                    name: name.clone(),
                    exec_line: exec_line.clone(),
                    args: args.clone(),
                    icon: make_icon_exec(custom_icon_path, icon.as_str()),
                    is_active: false,
                };
                match desktop_file {
                    Some(df) => match self.desktop.lookup(df.as_str()) {
                        Some(e) => {
                            if fe.exec_line.as_str().is_empty() {
                                fe.exec_line = e.exec_line;
                            }
                            if fe.icon.is_none() {
                                fe.icon = e.icon;
                            }
                            if fe.name.as_str().is_empty() || str_eq(fe.name.as_str(), "New App") {
                                fe.name = e.name;
                            }
                        },
                        None => {},
                    },
                    None => {},
                }
                if fe.exec_line.as_str().is_empty() {
                    let key = to_lowercase(name.as_str());
                    match self.catalog.get(&key) {
                        Some(d) => {
                            fe.exec_line = d.exec_line.clone();
                            if fe.icon.is_none() {
                                fe.icon = copy_opt(&d.icon);
                            }
                        },
                        None => {},
                    }
                }
                Some(fe)
            },
            _ => None,
        }
    }

    /// The slot of a configured app (see [`resolved_app`]).
    pub fn resolve_app(
        &self,
        name: &str,
        exec_line: &str,
        args: &str,
        icon: &str,
        custom_icon_path: &Option<String>,
        desktop_file: &Option<String>,
    ) -> (r: Entry)
        ensures
            r@ == resolved_app(name@, exec_line@, args@, icon@, opt_view(*custom_icon_path),
                opt_view(*desktop_file), self.catalog(), self.desktop_files()),
    {
        match desktop_file {
            Some(df) => match self.desktop.lookup(df.as_str()) {
                Some(e) => {
                    let mut e = e;
                    if !exec_line.is_empty() {
                        e.exec_line = String::from_str(exec_line);
                    }
                    if !args.is_empty() {
                        e.args = String::from_str(args);
                    }
                    let icon_override = make_icon_exec(custom_icon_path, icon);
                    if icon_override.is_some() {
                        e.icon = icon_override;
                    }
                    if !name.is_empty() && !str_eq(name, "New App") {
                        e.name = String::from_str(name);
                    }
                    return e;
                },
                None => {},
            },
            None => {},
        }
        if !exec_line.is_empty() {
            let e = Entry {
                name: String::from_str(name),
                exec_line: String::from_str(exec_line),
                args: String::from_str(args),
                icon: make_icon_exec(custom_icon_path, icon),
                desktop_file: None,
                is_active: false,
                is_special: false,
                is_spacer: false,
                is_folder: false,
                show_miniatures: false,
                folder_entries: Vec::new(),
            };
            assert(folder_views(e.folder_entries@) == Seq::<FolderEntryView>::empty());
            return e;
        }
        let key = to_lowercase(name);
        match self.catalog.get(&key) {
            Some(app) => {
                let mut cloned = app.duplicate();
                let icon_override = make_icon_exec(custom_icon_path, icon);
                if icon_override.is_some() {
                    cloned.icon = icon_override;
                }
                if !args.is_empty() {
                    cloned.args = String::from_str(args);
                }
                return cloned;
            },
            None => {},
        }
        match self.catalog.find_fuzzy(&key) {
            Some(app) => {
                let mut cloned = app.duplicate();
                let icon_override = make_icon_exec(custom_icon_path, icon);
                if icon_override.is_some() {
                    cloned.icon = icon_override;
                }
                if !args.is_empty() {
                    cloned.args = String::from_str(args);
                }
                return cloned;
            },
            None => {},
        }
        let e = Entry {
            name: String::from_str(name),
            exec_line: String::new(),
            args: String::from_str(args),
            icon: make_icon_exec(custom_icon_path, icon),
            desktop_file: None,
            is_active: false,
            is_special: false,
            is_spacer: false,
            is_folder: false,
            show_miniatures: false,
            folder_entries: Vec::new(),
        };
        assert(folder_views(e.folder_entries@) == Seq::<FolderEntryView>::empty());
        e
    }

    /// Appends the settings button.
    pub fn add_config_button(&mut self)
        ensures
            final(self).slots() == old(self).slots().push(settings_slot()),
            final(self).catalog() == old(self).catalog(),
            final(self).desktop_files() == old(self).desktop_files(),
            final(self).debug_on() == old(self).debug_on(),
    {
        let e = Entry {
            name: String::from_str("Settings"),
            exec_line: String::from_str("internal:config"),
            args: String::new(),
            icon: None,
            desktop_file: None,
            is_active: false,
            is_special: true,
            is_spacer: false,
            is_folder: false,
            show_miniatures: false,
            folder_entries: Vec::new(),
        };
        assert(folder_views(e.folder_entries@) == Seq::<FolderEntryView>::empty());
        let ghost before = self.slots();
        self.entries.push(e);
        assert(self.slots() == before.push(e@));
    }
}

// ── Reordering ───────────────────────────────────────────────────────────────

/// The slots after moving the slot at `from` to position `to`; nothing moves
/// when a position is out of range, the two are equal, or either slot is the
/// settings button.
pub open spec fn reordered(s: Seq<EntryView>, from: int, to: int) -> Seq<EntryView> {
    if from < 0 || to < 0 || from >= s.len() || to >= s.len() || from == to || s[from].is_special
        || s[to].is_special {
        s
    } else {
        s.remove(from).insert(to, s[from])
    }
}

// ── Launch plans ─────────────────────────────────────────────────────────────

/// What launching a slot comes to.
#[derive(Debug)]
pub enum LaunchPlan {
    /// Nothing to start.
    Nothing,
    /// The settings button: open the configuration window, then reload.
    OpenSettings,
    /// An app without a command.
    MissingCommand,
    /// Start this program (first element) with these arguments.
    Run(Vec<String>),
}

/// The argument vector of a command line with extra arguments: the cleaned
/// command split into arguments, then the extra arguments split likewise.
pub open spec fn command_args(exec_line: Seq<char>, args: Seq<char>) -> Seq<Seq<char>> {
    exec_args(cleaned_exec(exec_line)) + if args.len() > 0 { exec_args(args) } else { seq![] }
}

/// The plan for a command: nothing when its cleaned form has no argument,
/// missing when it is empty.
pub open spec fn command_plan_ok(exec_line: Seq<char>, args: Seq<char>, r: LaunchPlan) -> bool {
    if exec_line.len() == 0 {
        r is MissingCommand
    } else if exec_args(cleaned_exec(exec_line)).len() == 0 {
        r is Nothing
    } else {
        r matches LaunchPlan::Run(v) && views(v@) == command_args(exec_line, args)
    }
}

/// The plan for launching the slot at `index`.
pub open spec fn launch_plan_ok(s: Seq<EntryView>, index: int, r: LaunchPlan) -> bool {
    if index >= s.len() || s[index].is_spacer || s[index].is_folder {
        r is Nothing
    } else if s[index].is_special {
        r is OpenSettings
    } else {
        command_plan_ok(s[index].exec_line, s[index].args, r)
    }
}

/// The plan for launching app `app_index` of the slot at `folder_index`.
pub open spec fn folder_launch_plan_ok(s: Seq<EntryView>, folder_index: int, app_index: int, r: LaunchPlan) -> bool {
    if folder_index >= s.len() || app_index >= s[folder_index].folder_entries.len() {
        r is Nothing
    } else {
        command_plan_ok(s[folder_index].folder_entries[app_index].exec_line,
            s[folder_index].folder_entries[app_index].args, r)
    }
}

/// The slots after the process tracked under `key` ended: the slot or folder
/// app it was started for is no longer active. The flag says whether it was.
pub open spec fn after_exit(s: Seq<EntryView>, key: ProcessKey) -> (Seq<EntryView>, bool) {
    match key {
        ProcessKey::FolderApp(f, a) => if f < s.len() && a < s[f as int].folder_entries.len()
            && s[f as int].folder_entries[a as int].is_active {
            (s.update(f as int, EntryView {
                folder_entries: s[f as int].folder_entries.update(a as int, FolderEntryView {
                    is_active: false,
                    ..s[f as int].folder_entries[a as int]
                }),
                ..s[f as int]
            }), true)
        } else {
            (s, false)
        },
        ProcessKey::Slot(i) => if i < s.len() && s[i as int].is_active {
            (s.update(i as int, EntryView { is_active: false, ..s[i as int] }), true)
        } else {
            (s, false)
        },
    }
}

impl AppLauncher {
    /// Moves the slot at `from` to position `to` (see [`reordered`]).
    pub fn reorder_app(&mut self, from: usize, to: usize)
        ensures
            final(self).slots() == reordered(old(self).slots(), from as int, to as int),
            settings_last(old(self).slots()) ==> settings_last(final(self).slots()),
            final(self).catalog() == old(self).catalog(),
            final(self).desktop_files() == old(self).desktop_files(),
            final(self).debug_on() == old(self).debug_on(),
    {
        if from >= self.entries.len() || to >= self.entries.len() || from == to {
            return;
        }
        if self.entries[from].is_special || self.entries[to].is_special {
            return;
        }
        let ghost s = self.slots();
        let app = self.entries.remove(from);
        assert(self.slots() == s.remove(from as int));
        self.entries.insert(to, app);
        assert(self.slots() == s.remove(from as int).insert(to as int, s[from as int]));
        proof {
            if settings_last(s) {
                let t = self.slots();
                assert forall|i: int| 0 <= i < t.len() - 1 implies !(#[trigger] t[i]).is_special by {
                    if i < from && i < to {
                        assert(t[i] == s[i]);
                    } else if i == to {
                        assert(t[i] == s[from as int]);
                    } else if from < to && from <= i < to {
                        assert(t[i] == s[i + 1]);
                    } else if to < from && to < i <= from {
                        assert(t[i] == s[i - 1]);
                    } else {
                        assert(t[i] == s[i]);
                    }
                }
                assert(t.last() == s.last());
            }
        }
    }

    /// The argument vector of a command with extra arguments, `None` when the
    /// cleaned command has no argument.
    fn command_for(&self, exec_line: &str, args: &str) -> (r: Option<Vec<String>>)
        ensures
            match r {
                None => exec_args(cleaned_exec(exec_line@)).len() == 0,
                Some(v) => exec_args(cleaned_exec(exec_line@)).len() > 0 && views(v@) == command_args(
                    exec_line@, args@),
            },
    {
        let cleaned = self.clean_exec(exec_line);
        let mut parts = self.parse_exec(cleaned.as_str());
        if parts.len() == 0 {
            return None;
        }
        if !args.is_empty() {
            let extra = self.parse_exec(args);
            let ghost a = views(parts@);
            let ghost b = views(extra@);
            for i in 0..extra.len()
                invariant
                    views(parts@) == a + b.take(i as int),
                    b == views(extra@),
            {
                let x = extra[i].clone();
                let ghost before = views(parts@);
                parts.push(x);
                assert(views(parts@) == before.push(x@));
                assert(b.take(i + 1) == b.take(i as int).push(b[i as int]));
            }
            assert(b.take(b.len() as int) == b);
        } else {
            assert(views(parts@) + Seq::<Seq<char>>::empty() == views(parts@));
        }
        Some(parts)
    }

    /// Drops the `%` field codes of an exec line and normalises its white space.
    pub fn clean_exec(&self, exec_line: &str) -> (r: String)
        ensures
            r@ == cleaned_exec(exec_line@),
    {
        crate::text::clean_exec(exec_line)
    }

    /// Splits an exec line into arguments, honouring double quotes.
    pub fn parse_exec(&self, exec_line: &str) -> (r: Vec<String>)
        ensures
            views(r@) == exec_args(exec_line@),
    {
        crate::text::parse_exec(exec_line)
    }

    /// What launching the slot at `index` comes to.
    pub fn plan_launch(&self, index: usize) -> (r: LaunchPlan)
        ensures
            launch_plan_ok(self.slots(), index as int, r),
    {
        if index >= self.entries.len() {
            return LaunchPlan::Nothing;
        }
        let entry = &self.entries[index];
        if entry.is_spacer || entry.is_folder {
            return LaunchPlan::Nothing;
        }
        if entry.is_special {
            return LaunchPlan::OpenSettings;
        }
        if entry.exec_line.as_str().is_empty() {
            return LaunchPlan::MissingCommand;
        }
        match self.command_for(entry.exec_line.as_str(), entry.args.as_str()) {
            Some(v) => LaunchPlan::Run(v),
            None => LaunchPlan::Nothing,
        }
    }

    /// What launching app `app_index` of the folder at `folder_index` comes to.
    pub fn plan_folder_launch(&self, folder_index: usize, app_index: usize) -> (r: LaunchPlan)
        ensures
            folder_launch_plan_ok(self.slots(), folder_index as int, app_index as int, r),
    {
        if folder_index >= self.entries.len() {
            return LaunchPlan::Nothing;
        }
        let folder = &self.entries[folder_index];
        if app_index >= folder.folder_entries.len() {
            return LaunchPlan::Nothing;
        }
        let fe = &folder.folder_entries[app_index];
        if fe.exec_line.as_str().is_empty() {
            return LaunchPlan::MissingCommand;
        }
        match self.command_for(fe.exec_line.as_str(), fe.args.as_str()) {
            Some(v) => LaunchPlan::Run(v),
            None => LaunchPlan::Nothing,
        }
    }

    /// Marks the slot at `index` as running.
    pub fn mark_launched(&mut self, index: usize)
        ensures
            final(self).slots() == (if index < old(self).slots().len() {
                old(self).slots().update(index as int, EntryView { is_active: true, ..old(self).slots()[index as int] })
            } else {
                old(self).slots()
            }),
            final(self).catalog() == old(self).catalog(),
            final(self).desktop_files() == old(self).desktop_files(),
            final(self).debug_on() == old(self).debug_on(),
    {
        if index < self.entries.len() {
            let ghost s = self.slots();
            self.entries[index].is_active = true;
            assert(self.slots() == s.update(index as int, EntryView { is_active: true, ..s[index as int] }));
        }
    }
}

impl AppLauncher {
    /// Marks app `app_index` of the folder at `folder_index` as running.
    pub fn mark_folder_app_launched(&mut self, folder_index: usize, app_index: usize)
        ensures
            final(self).slots() == (if folder_index < old(self).slots().len() && app_index
                < old(self).slots()[folder_index as int].folder_entries.len() {
                old(self).slots().update(folder_index as int, EntryView {
                    folder_entries: old(self).slots()[folder_index as int].folder_entries.update(
                        app_index as int, FolderEntryView {
                            is_active: true,
                            ..old(self).slots()[folder_index as int].folder_entries[app_index as int]
                        }),
                    ..old(self).slots()[folder_index as int]
                })
            } else {
                old(self).slots()
            }),
            final(self).catalog() == old(self).catalog(),
            final(self).desktop_files() == old(self).desktop_files(),
            final(self).debug_on() == old(self).debug_on(),
    {
        if folder_index < self.entries.len() && app_index < self.entries[folder_index].folder_entries.len() {
            let ghost s = self.slots();
            let ghost f = s[folder_index as int];
            self.entries[folder_index].folder_entries[app_index].is_active = true;
            assert(folder_views(self.entries@[folder_index as int].folder_entries@) == f.folder_entries.update(
                app_index as int, FolderEntryView { is_active: true, ..f.folder_entries[app_index as int] }));
            assert(self.slots() == s.update(folder_index as int, EntryView {
                folder_entries: f.folder_entries.update(app_index as int, FolderEntryView {
                    is_active: true,
                    ..f.folder_entries[app_index as int]
                }),
                ..f
            }));
        }
    }

    /// Records that the process tracked under `key` ended (see [`after_exit`]);
    /// answers whether a slot changed.
    pub fn mark_process_exited(&mut self, key: ProcessKey) -> (changed: bool)
        ensures
            (final(self).slots(), changed) == after_exit(old(self).slots(), key),
            settings_last(old(self).slots()) ==> settings_last(final(self).slots()),
            final(self).catalog() == old(self).catalog(),
            final(self).desktop_files() == old(self).desktop_files(),
            final(self).debug_on() == old(self).debug_on(),
    {
        let ghost s = self.slots();
        match key {
            ProcessKey::FolderApp(folder_index, app_index) => {
                if folder_index < self.entries.len() && app_index < self.entries[folder_index].folder_entries.len()
                    && self.entries[folder_index].folder_entries[app_index].is_active {
                    let ghost f = s[folder_index as int];
                    self.entries[folder_index].folder_entries[app_index].is_active = false;
                    assert(folder_views(self.entries@[folder_index as int].folder_entries@) == f.folder_entries.update(
                        app_index as int, FolderEntryView { is_active: false, ..f.folder_entries[app_index as int] }));
                    assert(self.slots() == s.update(folder_index as int, EntryView {
                        folder_entries: f.folder_entries.update(app_index as int, FolderEntryView {
                            is_active: false,
                            ..f.folder_entries[app_index as int]
                        }),
                        ..f
                    }));
                    return true;
                }
                false
            },
            ProcessKey::Slot(i) => {
                if i < self.entries.len() && self.entries[i].is_active {
                    self.entries[i].is_active = false;
                    assert(self.slots() == s.update(i as int, EntryView { is_active: false, ..s[i as int] }));
                    true
                } else {
                    false
                }
            },
        }
    }
}

// ── Laws ─────────────────────────────────────────────────────────────────────

proof fn lemma_dedup_keeps_plain(s: Seq<EntryView>)
    requires
        forall|i: int| 0 <= i < s.len() ==> !(#[trigger] s[i]).is_special,
    ensures
        forall|i: int| 0 <= i < dedup_slots(s).len() ==> !(#[trigger] dedup_slots(s)[i]).is_special,
    decreases s.len(),
{
    if s.len() > 0 {
        lemma_dedup_keeps_plain(s.drop_last());
    }
}

proof fn lemma_pinned_plain(
    ps: Seq<AppEntry>,
    cat: Seq<(Seq<char>, EntryView)>,
    cache: Seq<(Seq<char>, Option<EntryView>)>,
)
    requires
        catalog_ok(cat),
        cache_ok(cache),
    ensures
        forall|i: int| 0 <= i < ps.len() ==> !(#[trigger] pinned_slots(ps, cat, cache)[i]).is_special,
{
    assert forall|i: int| 0 <= i < ps.len() implies !(#[trigger] pinned_slots(ps, cat, cache)[i]).is_special by {
        match ps[i] {
            AppEntry::App { name, exec_line, args, icon, custom_icon_path, desktop_file } => {
                let df = opt_view(desktop_file);
                if df is Some && lookup(cache, df->0) is Some {
                    let k = choose|j: int| key_at(cache, df->0, j);
                    assert(cache[k].1 matches Some(e) ==> is_discovered_app(e));
                }
                let key = lowercase(name@);
                if lookup(cat, key) is Some {
                    let k = choose|j: int| key_at(cat, key, j);
                    assert(is_discovered_app(cat[k].1));
                }
                if fuzzy_lookup(cat, key) is Some {
                    let k = choose|j: int| first_fuzzy(cat, key, j);
                    assert(is_discovered_app(cat[k].1));
                }
            },
            _ => {},
        }
    }
}

/// Only folder slots hold folder apps.
pub open spec fn folder_apps_only_in_folders(s: Seq<EntryView>) -> bool {
    forall|i: int| 0 <= i < s.len() && !(#[trigger] s[i]).is_folder ==> s[i].folder_entries.len() == 0
}

proof fn lemma_dedup_keeps_folder_apps(s: Seq<EntryView>)
    requires
        folder_apps_only_in_folders(s),
    ensures
        folder_apps_only_in_folders(dedup_slots(s)),
    decreases s.len(),
{
    if s.len() > 0 {
        assert(folder_apps_only_in_folders(s.drop_last())) by {
            assert forall|i: int| 0 <= i < s.drop_last().len() implies #[trigger] s.drop_last()[i] == s[i] by {}
        }
        lemma_dedup_keeps_folder_apps(s.drop_last());
        let d = dedup_slots(s.drop_last());
        assert forall|i: int| 0 <= i < d.push(s.last()).len() && !(#[trigger] d.push(s.last())[i]).is_folder
            implies d.push(s.last())[i].folder_entries.len() == 0 by {
            if i < d.len() {
                assert(d.push(s.last())[i] == d[i]);
            }
        }
    }
}

proof fn lemma_pinned_folder_apps(
    ps: Seq<AppEntry>,
    cat: Seq<(Seq<char>, EntryView)>,
    cache: Seq<(Seq<char>, Option<EntryView>)>,
)
    requires
        catalog_ok(cat),
        cache_ok(cache),
    ensures
        folder_apps_only_in_folders(pinned_slots(ps, cat, cache)),
{
    assert forall|i: int| 0 <= i < ps.len() && !(#[trigger] pinned_slots(ps, cat, cache)[i]).is_folder
        implies pinned_slots(ps, cat, cache)[i].folder_entries.len() == 0 by {
        match ps[i] {
            AppEntry::App { name, exec_line, args, icon, custom_icon_path, desktop_file } => {
                let df = opt_view(desktop_file);
                if df is Some && lookup(cache, df->0) is Some {
                    let k = choose|j: int| key_at(cache, df->0, j);
                    assert(cache[k].1 matches Some(e) ==> is_discovered_app(e));
                }
                let key = lowercase(name@);
                if lookup(cat, key) is Some {
                    let k = choose|j: int| key_at(cat, key, j);
                    assert(is_discovered_app(cat[k].1));
                }
                if fuzzy_lookup(cat, key) is Some {
                    let k = choose|j: int| first_fuzzy(cat, key, j);
                    assert(is_discovered_app(cat[k].1));
                }
            },
            _ => {},
        }
    }
}

/// A freshly built dock ends with the settings button, and it is the only
/// special slot.
pub proof fn new_dock_ends_with_settings(
    pinned: Seq<AppEntry>,
    cat: Seq<(Seq<char>, EntryView)>,
    cache: Seq<(Seq<char>, Option<EntryView>)>,
)
    requires
        catalog_ok(cat),
        cache_ok(cache),
    ensures
        settings_last(dedup_slots(pinned_slots(pinned, cat, cache)).push(settings_slot())),
{
    lemma_pinned_plain(pinned, cat, cache);
    lemma_dedup_keeps_plain(pinned_slots(pinned, cat, cache));
    let d = dedup_slots(pinned_slots(pinned, cat, cache));
    let t = d.push(settings_slot());
    assert forall|i: int| 0 <= i < t.len() - 1 implies !(#[trigger] t[i]).is_special by {
        assert(t[i] == d[i]);
    }
}

/// After merging, no two neighbouring slots are both non-spacers with the same
/// name.
pub proof fn merged_slots_have_distinct_neighbours(s: Seq<EntryView>)
    ensures
        forall|i: int| 0 <= i < dedup_slots(s).len() - 1 ==> !same_slot(
            #[trigger] dedup_slots(s)[i + 1],
            dedup_slots(s)[i],
        ),
    decreases s.len(),
{
    if s.len() > 0 {
        merged_slots_have_distinct_neighbours(s.drop_last());
        let d = dedup_slots(s.drop_last());
        if !(d.len() > 0 && same_slot(s.last(), d.last())) {
            let e = d.push(s.last());
            assert forall|i: int| 0 <= i < e.len() - 1 implies !same_slot(#[trigger] e[i + 1], e[i]) by {
                if i < d.len() - 1 {
                    assert(e[i + 1] == d[i + 1] && e[i] == d[i]);
                }
            }
        }
    }
}

/// Moving a slot and moving it back restores the dock, when the settings
/// button is the last and only special slot.
pub proof fn reorder_undone_by_reverse_move(s: Seq<EntryView>, from: int, to: int)
    requires
        settings_last(s),
    ensures
        reordered(reordered(s, from, to), to, from) == s,
{
    if !(from < 0 || to < 0 || from >= s.len() || to >= s.len() || from == to || s[from].is_special
        || s[to].is_special) {
        let t = s.remove(from).insert(to, s[from]);
        assert(from < s.len() - 1 && to < s.len() - 1);
        assert(t[to] == s[from]);
        if from < to {
            assert(t[from] == s[from + 1]);
        } else {
            assert(t[from] == s[from - 1]);
        }
        assert(t.remove(to).insert(from, t[to]) =~= s);
    }
}

/// The end of a folder app's process marks that folder app as stopped and
/// changes no slot's own running flag: folder apps are tracked apart from slots.
pub proof fn folder_app_exit_keeps_slots(s: Seq<EntryView>, f: usize, a: usize)
    ensures
        after_exit(s, ProcessKey::FolderApp(f, a)).0.len() == s.len(),
        forall|k: int| 0 <= k < s.len() ==> (#[trigger] after_exit(s, ProcessKey::FolderApp(f, a)).0[k]).is_active
            == s[k].is_active,
        f < s.len() && a < s[f as int].folder_entries.len() ==> !after_exit(s, ProcessKey::FolderApp(f, a)).0[f as int].folder_entries[a as int].is_active,
{
}

/// Configured extra arguments are never lost: whichever way a pinned app is
/// resolved (its desktop file, its own command, a discovered app found by exact
/// or loose name, or nothing), a non-empty `args` is the slot's arguments.
pub proof fn configured_args_are_kept(
    name: Seq<char>,
    exec_line: Seq<char>,
    args: Seq<char>,
    icon: Seq<char>,
    custom: Option<Seq<char>>,
    desktop_file: Option<Seq<char>>,
    cat: Seq<(Seq<char>, EntryView)>,
    cache: Seq<(Seq<char>, Option<EntryView>)>,
)
    requires
        args.len() > 0,
    ensures
        resolved_app(name, exec_line, args, icon, custom, desktop_file, cat, cache).args == args,
{
}

/// A pinned app without desktop file and command that matches a discovered app
/// (by exact lower-cased name, else loosely) runs that app's command with the
/// configured extra arguments, and shows the configured icon when one is set.
pub proof fn discovered_app_takes_configuration(
    name: Seq<char>,
    args: Seq<char>,
    icon: Seq<char>,
    custom: Option<Seq<char>>,
    cat: Seq<(Seq<char>, EntryView)>,
    cache: Seq<(Seq<char>, Option<EntryView>)>,
)
    requires
        lookup(cat, lowercase(name)) is Some || fuzzy_lookup(cat, lowercase(name)) is Some,
    ensures
        ({
            let a = if lookup(cat, lowercase(name)) is Some {
                lookup(cat, lowercase(name))->0
            } else {
                fuzzy_lookup(cat, lowercase(name))->0
            };
            let r = resolved_app(name, seq![], args, icon, custom, None, cat, cache);
            &&& r.exec_line == a.exec_line
            &&& r.name == a.name
            &&& (args.len() > 0 ==> r.args == args)
            &&& (args.len() == 0 ==> r.args == a.args)
            &&& (custom is Some ==> r.icon == custom)
            &&& (custom is None && icon.len() > 0 ==> r.icon == Some(icon))
            &&& (custom is None && icon.len() == 0 ==> r.icon == a.icon)
        }),
{
}

/// An app inside a folder keeps its configured extra arguments, whatever its
/// desktop file or the discovered apps give.
pub proof fn folder_app_args_are_kept(
    name: Seq<char>,
    exec_line: Seq<char>,
    args: Seq<char>,
    icon: Seq<char>,
    custom: Option<Seq<char>>,
    desktop_file: Option<Seq<char>>,
    cat: Seq<(Seq<char>, EntryView)>,
    cache: Seq<(Seq<char>, Option<EntryView>)>,
)
    ensures
        resolved_folder_app(name, exec_line, args, icon, custom, desktop_file, cat, cache).args == args,
{
}

proof fn lemma_no_args()
    ensures
        exec_args(Seq::<char>::empty()) == Seq::<Seq<char>>::empty(),
{
    assert(crate::text::scan_exec(Seq::<char>::empty()) == (Seq::<Seq<char>>::empty(), Seq::<char>::empty(), false));
}

/// Launching an app of a folder runs its cleaned command, split into
/// arguments, followed by that app's own extra arguments split likewise.
pub proof fn folder_launch_runs_command_and_args(s: Seq<EntryView>, f: int, a: int, r: LaunchPlan)
    requires
        0 <= f,
        0 <= a,
        folder_launch_plan_ok(s, f, a, r),
        r is Run,
    ensures
        f < s.len(),
        a < s[f].folder_entries.len(),
        views(r->0@) == exec_args(cleaned_exec(s[f].folder_entries[a].exec_line))
            + exec_args(s[f].folder_entries[a].args),
        exec_args(cleaned_exec(s[f].folder_entries[a].exec_line)).len() > 0,
{
    lemma_no_args();
    let fe = s[f].folder_entries[a];
    if fe.args.len() == 0 {
        assert(exec_args(fe.args) == Seq::<Seq<char>>::empty());
        assert(exec_args(cleaned_exec(fe.exec_line)) + Seq::<Seq<char>>::empty()
            == exec_args(cleaned_exec(fe.exec_line)));
    }
}

/// Launching a slot runs its cleaned command, split into arguments, followed by
/// the slot's extra arguments split likewise.
pub proof fn slot_launch_runs_command_and_args(s: Seq<EntryView>, i: int, r: LaunchPlan)
    requires
        0 <= i,
        launch_plan_ok(s, i, r),
        r is Run,
    ensures
        i < s.len(),
        !s[i].is_spacer && !s[i].is_folder && !s[i].is_special,
        views(r->0@) == exec_args(cleaned_exec(s[i].exec_line)) + exec_args(s[i].args),
        exec_args(cleaned_exec(s[i].exec_line)).len() > 0,
{
    lemma_no_args();
    if s[i].args.len() == 0 {
        assert(exec_args(cleaned_exec(s[i].exec_line)) + Seq::<Seq<char>>::empty()
            == exec_args(cleaned_exec(s[i].exec_line)));
    }
}

/// Moving a slot puts it at the target position, shifts the slots between
/// the two positions by one, and keeps every slot: the dock has the same
/// length and the same slots as a multiset.
pub proof fn reorder_moves_one_slot(s: Seq<EntryView>, from: int, to: int)
    requires
        0 <= from < s.len(),
        0 <= to < s.len(),
        from != to,
        !s[from].is_special,
        !s[to].is_special,
    ensures
        reordered(s, from, to).len() == s.len(),
        reordered(s, from, to)[to] == s[from],
        reordered(s, from, to).to_multiset() == s.to_multiset(),
        forall|k: int| 0 <= k < s.len() && k < from && k < to ==> reordered(s, from, to)[k] == s[k],
        forall|k: int| 0 <= k < s.len() && k > from && k > to ==> reordered(s, from, to)[k] == s[k],
        forall|k: int| from < k <= to ==> reordered(s, from, to)[k - 1] == s[k],
        forall|k: int| to <= k < from ==> reordered(s, from, to)[k + 1] == s[k],
{
    broadcast use vstd::seq_lib::group_to_multiset_ensures;
    let t = s.remove(from);
    assert(t.insert(to, s[from]).to_multiset() == t.to_multiset().insert(s[from])) by {
        vstd::seq_lib::to_multiset_insert(t, to, s[from]);
    }
    assert(s.to_multiset().remove(s[from]).insert(s[from]) =~= s.to_multiset()) by {
        broadcast use vstd::multiset::group_multiset_axioms;
        assert(s.to_multiset().count(s[from]) > 0) by {
            vstd::seq_lib::to_multiset_contains(s, s[from]);
        }
    }
}

/// A pinned app with a desktop file that gave a slot is that slot with the
/// configuration laid over it: the configured command, arguments and icon
/// when set, and the configured name unless it is empty or `New App`.
pub proof fn desktop_file_comes_first(
    name: Seq<char>,
    exec_line: Seq<char>,
    args: Seq<char>,
    icon: Seq<char>,
    custom: Option<Seq<char>>,
    df: Seq<char>,
    cat: Seq<(Seq<char>, EntryView)>,
    cache: Seq<(Seq<char>, Option<EntryView>)>,
)
    requires
        cached_slot(cache, df) is Some,
    ensures
        ({
            let e = cached_slot(cache, df)->0;
            let r = resolved_app(name, exec_line, args, icon, custom, Some(df), cat, cache);
            &&& r.exec_line == (if exec_line.len() > 0 { exec_line } else { e.exec_line })
            &&& r.args == (if args.len() > 0 { args } else { e.args })
            &&& r.name == (if name.len() > 0 && name != "New App"@ { name } else { e.name })
            &&& (custom is Some ==> r.icon == custom)
            &&& (custom is None && icon.len() > 0 ==> r.icon == Some(icon))
            &&& (custom is None && icon.len() == 0 ==> r.icon == e.icon)
            &&& r.desktop_file == e.desktop_file
        }),
{
}

/// A pinned app without a usable desktop file but with its own command runs
/// that command as configured, under its configured name.
pub proof fn own_command_is_used(
    name: Seq<char>,
    exec_line: Seq<char>,
    args: Seq<char>,
    icon: Seq<char>,
    custom: Option<Seq<char>>,
    desktop_file: Option<Seq<char>>,
    cat: Seq<(Seq<char>, EntryView)>,
    cache: Seq<(Seq<char>, Option<EntryView>)>,
)
    requires
        exec_line.len() > 0,
        desktop_file is None || cached_slot(cache, desktop_file->0) is None,
    ensures
        ({
            let r = resolved_app(name, exec_line, args, icon, custom, desktop_file, cat, cache);
            &&& r.exec_line == exec_line
            &&& r.name == name
            &&& r.args == args
            &&& r.icon == make_icon(custom, icon)
            &&& r.desktop_file is None
        }),
{
}

/// An app inside a folder takes its missing command from its desktop file,
/// else from the discovered app of the same lower-cased name; a command it has
/// is kept.
pub proof fn folder_app_command(
    name: Seq<char>,
    exec_line: Seq<char>,
    args: Seq<char>,
    icon: Seq<char>,
    custom: Option<Seq<char>>,
    desktop_file: Option<Seq<char>>,
    cat: Seq<(Seq<char>, EntryView)>,
    cache: Seq<(Seq<char>, Option<EntryView>)>,
)
    ensures
        ({
            let r = resolved_folder_app(name, exec_line, args, icon, custom, desktop_file, cat, cache);
            let loaded = if desktop_file is Some { cached_slot(cache, desktop_file->0) } else { None };
            &&& exec_line.len() > 0 ==> r.exec_line == exec_line
            &&& exec_line.len() == 0 && loaded is Some && loaded->0.exec_line.len() > 0
                ==> r.exec_line == loaded->0.exec_line
            &&& exec_line.len() == 0 && loaded is None && lookup(cat, lowercase(name)) is Some
                ==> r.exec_line == lookup(cat, lowercase(name))->0.exec_line
            &&& !r.is_active
        }),
{
}

/// Spacers and nested folders inside a folder are ignored: adding one to a
/// folder's apps leaves its slots unchanged.
pub proof fn nested_entries_ignored(
    apps: Seq<AppEntry>,
    extra: AppEntry,
    cat: Seq<(Seq<char>, EntryView)>,
    cache: Seq<(Seq<char>, Option<EntryView>)>,
)
    requires
        !(extra is App),
    ensures
        folder_slots(apps.push(extra), cat, cache) == folder_slots(apps, cat, cache),
{
    assert(apps.push(extra).drop_last() == apps);
}

// ── Desktop files to read ────────────────────────────────────────────────────

/// The desktop file an app names; nothing for spacers and folders.
pub open spec fn named_file(e: AppEntry) -> Option<Seq<char>> {
    match e {
        AppEntry::App { desktop_file, .. } => opt_view(desktop_file),
        _ => None,
    }
}

/// The desktop file an app names, as a list of at most one path.
pub open spec fn file_list(e: AppEntry) -> Seq<Seq<char>> {
    match named_file(e) {
        Some(p) => seq![p],
        None => seq![],
    }
}

/// The desktop files named by the apps of a folder, in order.
pub open spec fn folder_files(apps: Seq<AppEntry>) -> Seq<Seq<char>>
    decreases apps.len(),
{
    if apps.len() == 0 {
        seq![]
    } else {
        folder_files(apps.drop_last()) + file_list(apps.last())
    }
}

/// The desktop files the configuration names: for each entry, its own, then
/// those of its apps when it is a folder.
pub open spec fn config_files(ps: Seq<AppEntry>) -> Seq<Seq<char>>
    decreases ps.len(),
{
    if ps.len() == 0 {
        seq![]
    } else {
        config_files(ps.drop_last()) + file_list(ps.last()) + folder_files(inner_of(ps.last()))
    }
}

fn push_named(out: &mut Vec<String>, e: &AppEntry)
    ensures
        views(final(out)@) == views(old(out)@) + file_list(*e),
{
    let ghost before = views(out@);
    match e {
        AppEntry::App { desktop_file: Some(df), .. } => {
            out.push(df.clone());
            assert(views(out@) == before + file_list(*e));
        },
        _ => {
            assert(views(out@) == before + file_list(*e));
        },
    }
}

/// The desktop files that the configuration names (see [`config_files`]):
/// the files to read before resolving it.
pub fn referenced_desktop_files(pinned: &Vec<AppEntry>) -> (r: Vec<String>)
    ensures
        views(r@) == config_files(pinned@),
{
    let mut out: Vec<String> = Vec::new();
    for i in 0..pinned.len()
        invariant
            views(out@) == config_files(pinned@.take(i as int)),
    {
        push_named(&mut out, &pinned[i]);
        let ghost mid = views(out@);
        match pinned[i].folder_apps() {
            Some(apps) => {
                for j in 0..apps.len()
                    invariant
                        views(out@) == mid + folder_files(apps@.take(j as int)),
                {
                    push_named(&mut out, &apps[j]);
                    assert(apps@.take(j + 1).drop_last() == apps@.take(j as int));
                    assert(views(out@) == mid + folder_files(apps@.take(j + 1)));
                }
                assert(apps@.take(apps@.len() as int) == apps@);
            },
            None => {
                assert(views(out@) == mid + folder_files(inner_of(pinned@[i as int])));
            },
        }
        assert(pinned@.take(i + 1).drop_last() == pinned@.take(i as int));
    }
    assert(pinned@.take(pinned@.len() as int) == pinned@);
    out
}

/// The apps of a folder; nothing for other entries.
pub open spec fn inner_of(e: AppEntry) -> Seq<AppEntry> {
    match e {
        AppEntry::Folder { apps, .. } => apps@,
        _ => seq![],
    }
}

} // verus!
