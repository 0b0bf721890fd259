//! Listing and searching in the configuration window's pickers, and the file
//! name under which a processed icon is cached.

use vstd::prelude::*;
use vstd::string::*;
use crate::text::{chars_of, contains_str, has_infix, lowercase, push_char, to_lowercase};
use crate::desktop::{DesktopInfo, read_desktop_entry, desktop_decodes, desktop_name, desktop_no_display, opt_view};

verus! {

/// What a file picker is choosing.
#[derive(Debug, Clone, Copy, PartialEq, Eq, Structural)]
pub enum PickerMode {
    Icons,
    Executables,
    Any,
}

/// The directory a picker opens in and its window title: icons start in
/// `/usr/share/icons`, executables in `/usr/bin`, any file at `/`.
pub fn picker_start(mode: PickerMode) -> (r: (&'static str, &'static str))
    ensures
        mode == PickerMode::Icons ==> r.0@ == "/usr/share/icons"@ && r.1@ == "Select Icon"@,
        mode == PickerMode::Executables ==> r.0@ == "/usr/bin"@ && r.1@ == "Select Executable"@,
        mode == PickerMode::Any ==> r.0@ == "/"@ && r.1@ == "Select File"@,
{
    match mode {
        PickerMode::Icons => ("/usr/share/icons", "Select Icon"),
        PickerMode::Executables => ("/usr/bin", "Select Executable"),
        PickerMode::Any => ("/", "Select File"),
    }
}

/// A name passes a search typed in lower case when the search is empty or
/// occurs in the lower-cased name.
pub open spec fn search_hit(name: Seq<char>, search_lc: Seq<char>) -> bool {
    search_lc.len() == 0 || has_infix(lowercase(name), search_lc)
}

/// Whether `name` passes the lower-cased search `search_lc`.
pub fn matches_search(name: &str, search_lc: &str) -> (r: bool)
    ensures
        r == search_hit(name@, search_lc@),
{
    if search_lc.is_empty() {
        return true;
    }
    let lc = to_lowercase(name);
    contains_str(lc.as_str(), search_lc)
}

/// Position `i` is the first directory that passes the search.
pub open spec fn first_dir_hit(entries: Seq<(Seq<char>, bool)>, search_lc: Seq<char>, i: int) -> bool {
    0 <= i < entries.len() && entries[i].1 && search_hit(entries[i].0, search_lc) && forall|j: int|
        0 <= j < i ==> !((#[trigger] entries[j]).1 && search_hit(entries[j].0, search_lc))
}

/// The views of a listing.
pub open spec fn listing_views(s: Seq<(String, bool)>) -> Seq<(Seq<char>, bool)> {
    s.map_values(|p: (String, bool)| (p.0@, p.1))
}

/// The first directory of a listing that passes the search typed so far, the
/// one that submitting the search opens.
pub fn first_matching_dir(entries: &Vec<(String, bool)>, search: &str) -> (r: Option<usize>)
    ensures
        match r {
            Some(i) => first_dir_hit(listing_views(entries@), lowercase(search@), i as int),
            None => forall|i: int| 0 <= i < entries@.len() ==> !(entries@[i].1 && search_hit(
                entries@[i].0@, lowercase(search@))),
        },
{
    let search_lc = to_lowercase(search);
    for i in 0..entries.len()
        invariant
            search_lc@ == lowercase(search@),
            forall|j: int| 0 <= j < i ==> !((#[trigger] listing_views(entries@)[j]).1 && search_hit(
                listing_views(entries@)[j].0, search_lc@)),
    {
        if entries[i].1 && matches_search(entries[i].0.as_str(), search_lc.as_str()) {
            return Some(i);
        }
    }
    proof {
        assert forall|i: int| 0 <= i < entries@.len() implies !(entries@[i].1 && search_hit(
            entries@[i].0@, lowercase(search@))) by {
            assert(listing_views(entries@)[i] == (entries@[i].0@, entries@[i].1));
        }
    }
    None
}

/// `s` ends with `suffix`.
pub open spec fn ends_with(s: Seq<char>, suffix: Seq<char>) -> bool {
    suffix.len() <= s.len() && s.subrange(s.len() - suffix.len(), s.len() as int) == suffix
}

fn ends_with_exec(s: &Vec<char>, suffix: &str) -> (r: bool)
    ensures
        r == ends_with(s@, suffix@),
{
    let x = chars_of(suffix);
    if x.len() > s.len() {
        return false;
    }
    let off = s.len() - x.len();
    for j in 0..x.len()
        invariant
            off + x.len() == s.len(),
            x@ == suffix@,
            forall|k: int| 0 <= k < j ==> s@[off + k] == x@[k],
    {
        if s[off + j] != x[j] {
            assert(s@.subrange(off as int, s@.len() as int)[j as int] != suffix@[j as int]);
            return false;
        }
    }
    assert(s@.subrange(off as int, s@.len() as int) == suffix@);
    true
}

/// An image file the icon picker offers: its lower-cased name ends with
/// `.png`, `.svg`, `.xpm` or `.ico`.
pub open spec fn icon_file(name: Seq<char>) -> bool {
    let l = lowercase(name);
    ends_with(l, ".png"@) || ends_with(l, ".svg"@) || ends_with(l, ".xpm"@) || ends_with(l, ".ico"@)
}

/// Whether a directory entry is listed: hidden names only when asked for,
/// directories always, files by the picker's mode (icons by extension,
/// executables by their permission bits, anything otherwise).
pub open spec fn listed(name: Seq<char>, is_dir: bool, mode: PickerMode, show_hidden: bool, executable: bool) -> bool {
    if !show_hidden && name.len() > 0 && name[0] == '.' {
        false
    } else if is_dir {
        true
    } else {
        match mode {
            PickerMode::Icons => icon_file(name),
            PickerMode::Executables => executable,
            PickerMode::Any => true,
        }
    }
}

/// What a picker lists: a name starting with a dot only when hidden entries
/// are shown; a directory that is not hidden always; a file that is not hidden
/// by the picker's kind: an image by its lower-cased extension (`.png`, `.svg`,
/// `.xpm`, `.ico`), an executable by its permission, anything for any file.
pub proof fn listing_rules(name: Seq<char>, is_dir: bool, mode: PickerMode, show_hidden: bool, executable: bool)
    ensures
        name.len() > 0 && name[0] == '.' && !show_hidden ==> !listed(name, is_dir, mode, show_hidden, executable),
        !(name.len() > 0 && name[0] == '.' && !show_hidden) && is_dir ==> listed(name, is_dir, mode, show_hidden,
            executable),
        !(name.len() > 0 && name[0] == '.' && !show_hidden) && !is_dir ==> (listed(name, is_dir, mode, show_hidden,
            executable) <==> match mode {
            PickerMode::Any => true,
            PickerMode::Executables => executable,
            PickerMode::Icons => {
                let l = lowercase(name);
                exists|x: Seq<char>| (x == ".png"@ || x == ".svg"@ || x == ".xpm"@ || x == ".ico"@)
                    && l.len() >= x.len() && #[trigger] l.subrange(l.len() - x.len(), l.len() as int) == x
            },
        }),
{
    let l = lowercase(name);
    if !is_dir && mode == PickerMode::Icons {
        if ends_with(l, ".png"@) {
            assert(l.subrange(l.len() - ".png"@.len(), l.len() as int) == ".png"@);
        }
        if ends_with(l, ".svg"@) {
            assert(l.subrange(l.len() - ".svg"@.len(), l.len() as int) == ".svg"@);
        }
        if ends_with(l, ".xpm"@) {
            assert(l.subrange(l.len() - ".xpm"@.len(), l.len() as int) == ".xpm"@);
        }
        if ends_with(l, ".ico"@) {
            assert(l.subrange(l.len() - ".ico"@.len(), l.len() as int) == ".ico"@);
        }
    }
}

/// An empty search finds every name, and a search finds a name exactly when it
/// occurs somewhere in the name's lower-cased form.
pub proof fn search_finds_infixes(name: Seq<char>, search_lc: Seq<char>)
    ensures
        search_lc.len() == 0 ==> search_hit(name, search_lc),
        search_lc.len() > 0 ==> (search_hit(name, search_lc) <==> exists|i: int| 0 <= i && i + search_lc.len()
            <= lowercase(name).len() && #[trigger] lowercase(name).subrange(i, i + search_lc.len()) == search_lc),
{
    if search_lc.len() > 0 && search_hit(name, search_lc) {
        let i = choose|i: int| #[trigger] crate::text::occurs_at(lowercase(name), search_lc, i);
        assert(lowercase(name).subrange(i, i + search_lc.len()) == search_lc);
    }
    if search_lc.len() > 0 && (exists|i: int| 0 <= i && i + search_lc.len()
            <= lowercase(name).len() && #[trigger] lowercase(name).subrange(i, i + search_lc.len()) == search_lc) {
        let i = choose|i: int| 0 <= i && i + search_lc.len()
            <= lowercase(name).len() && #[trigger] lowercase(name).subrange(i, i + search_lc.len()) == search_lc;
        assert(crate::text::occurs_at(lowercase(name), search_lc, i));
    }
}

/// Whether a directory entry is listed by a picker (see [`listed`]).
pub fn keep_in_listing(name: &str, is_dir: bool, mode: PickerMode, show_hidden: bool, executable: bool) -> (r: bool)
    ensures
        r == listed(name@, is_dir, mode, show_hidden, executable),
{
    let cs = chars_of(name);
    if !show_hidden && cs.len() > 0 && cs[0] == '.' {
        return false;
    }
    if is_dir {
        return true;
    }
    match mode {
        PickerMode::Icons => {
            let lower = to_lowercase(name);
            let lc = chars_of(lower.as_str());
            ends_with_exec(&lc, ".png") || ends_with_exec(&lc, ".svg") || ends_with_exec(&lc, ".xpm")
                || ends_with_exec(&lc, ".ico")
        },
        PickerMode::Executables => executable,
        PickerMode::Any => true,
    }
}

// ── Ordering names ───────────────────────────────────────────────────────────

/// `a` comes strictly before `b` in the order of character codes, a proper
/// prefix first: the order of `str` comparison.
pub open spec fn name_before(a: Seq<char>, b: Seq<char>) -> bool
    decreases a.len(),
{
    if b.len() == 0 {
        false
    } else if a.len() == 0 {
        true
    } else if a[0] < b[0] {
        true
    } else if a[0] == b[0] {
        name_before(a.drop_first(), b.drop_first())
    } else {
        false
    }
}

/// Whether `a` comes strictly before `b` (see [`name_before`]).
pub fn precedes(a: &str, b: &str) -> (r: bool)
    ensures
        r == name_before(a@, b@),
{
    let x = chars_of(a);
    let y = chars_of(b);
    let mut i: usize = 0;
    assert(x@.skip(0) == x@ && y@.skip(0) == y@);
    while i < x.len() && i < y.len()
        invariant
            i <= x@.len(),
            i <= y@.len(),
            x@ == a@,
            y@ == b@,
            name_before(a@, b@) == name_before(x@.skip(i as int), y@.skip(i as int)),
        decreases x.len() - i,
    {
        if x[i] < y[i] {
            return true;
        }
        if x[i] != y[i] {
            return false;
        }
        assert(x@.skip(i as int).drop_first() == x@.skip(i + 1));
        assert(y@.skip(i as int).drop_first() == y@.skip(i + 1));
        i = i + 1;
    }
    i == x.len() && i < y.len()
}

/// `a` does not come after `b`.
pub open spec fn name_le(a: Seq<char>, b: Seq<char>) -> bool {
    !name_before(b, a)
}

/// Names in non-decreasing order.
pub open spec fn sorted_by_name<T>(s: Seq<(Seq<char>, T)>) -> bool {
    forall|i: int, j: int| 0 <= i < j < s.len() ==> name_le(s[i].0, s[j].0)
}

proof fn lemma_name_total(a: Seq<char>, b: Seq<char>)
    ensures
        name_before(a, b) ==> name_le(a, b),
    decreases a.len(),
{
    if a.len() > 0 && b.len() > 0 && a[0] == b[0] {
        lemma_name_total(a.drop_first(), b.drop_first());
    }
}

proof fn lemma_name_trans(a: Seq<char>, b: Seq<char>, c: Seq<char>)
    requires
        name_le(a, b),
        name_le(b, c),
    ensures
        name_le(a, c),
    decreases a.len(),
{
    if a.len() > 0 && b.len() > 0 && c.len() > 0 && a[0] == b[0] && b[0] == c[0] {
        lemma_name_trans(a.drop_first(), b.drop_first(), c.drop_first());
    }
}

proof fn lemma_name_irreflexive(a: Seq<char>)
    ensures
        !name_before(a, a),
    decreases a.len(),
{
    if a.len() > 0 {
        lemma_name_irreflexive(a.drop_first());
    }
}

/// The elements of a listing named `k`, in order.
pub open spec fn named<T>(s: Seq<(String, T)>, k: Seq<char>) -> Seq<(String, T)>
    decreases s.len(),
{
    if s.len() == 0 {
        seq![]
    } else {
        let r = named(s.drop_last(), k);
        if s.last().0@ == k { r.push(s.last()) } else { r }
    }
}

proof fn lemma_named_append<T>(s: Seq<(String, T)>, t: Seq<(String, T)>, k: Seq<char>)
    ensures
        named(s + t, k) == named(s, k) + named(t, k),
    decreases t.len(),
{
    if t.len() == 0 {
        assert(s + t == s);
        assert(named(s, k) + named(t, k) == named(s, k));
    } else {
        lemma_named_append(s, t.drop_last(), k);
        assert((s + t).drop_last() == s + t.drop_last());
        assert((s + t).last() == t.last());
        if t.last().0@ == k {
            assert(named(s, k) + named(t.drop_last(), k).push(t.last())
                == (named(s, k) + named(t.drop_last(), k)).push(t.last()));
        }
    }
}

/// Swapping two neighbours with different names keeps, for every name, the
/// order of the elements with that name.
proof fn lemma_named_swap<T>(b: Seq<(String, T)>, j: int, k: Seq<char>)
    requires
        1 <= j < b.len(),
        b[j - 1].0@ != b[j].0@,
    ensures
        named(b.update(j - 1, b[j]).update(j, b[j - 1]), k) == named(b, k),
{
    let x = b[j - 1];
    let y = b[j];
    let pre = b.take(j - 1);
    let post = b.skip(j + 1);
    let a = b.update(j - 1, y).update(j, x);
    assert(b =~= pre + seq![x, y] + post);
    assert(a =~= pre + seq![y, x] + post);
    lemma_named_append(pre + seq![x, y], post, k);
    lemma_named_append(pre, seq![x, y], k);
    lemma_named_append(pre + seq![y, x], post, k);
    lemma_named_append(pre, seq![y, x], k);
    let e = Seq::<(String, T)>::empty();
    assert(seq![x, y].drop_last() == seq![x] && seq![x, y].last() == y);
    assert(seq![y, x].drop_last() == seq![y] && seq![y, x].last() == x);
    assert(seq![x].drop_last() == e && seq![x].last() == x);
    assert(seq![y].drop_last() == e && seq![y].last() == y);
    assert(named(e, k) == e);
    if x.0@ == k {
        assert(named(seq![x], k) == seq![x]);
        assert(named(seq![y], k) == e);
        assert(named(seq![x, y], k) == seq![x]);
        assert(named(seq![y, x], k) == e.push(x));
    } else if y.0@ == k {
        assert(named(seq![x], k) == e);
        assert(named(seq![y], k) == seq![y]);
        assert(named(seq![x, y], k) == e.push(y));
        assert(named(seq![y, x], k) == seq![y]);
    } else {
        assert(named(seq![x], k) == e);
        assert(named(seq![y], k) == e);
    }
    assert(named(seq![x, y], k) == named(seq![y, x], k));
}

/// The name of an element of a listing.
pub open spec fn key_of<T>(v: Seq<(String, T)>, i: int) -> Seq<char> {
    v[i].0@
}

/// Sorts a listing by name; elements of the same name keep their order.
pub fn sort_by_name<T>(v: &mut Vec<(String, T)>)
    ensures
        forall|i: int, j: int| 0 <= i < j < final(v)@.len() ==> name_le(key_of(final(v)@, i), key_of(final(v)@, j)),
        final(v)@.to_multiset() == old(v)@.to_multiset(),
        forall|k: Seq<char>| #[trigger] named(final(v)@, k) == named(old(v)@, k),
{
    let n = v.len();
    let mut i: usize = 0;
    while i < n
        invariant
            i <= n,
            v@.len() == n,
            v@.to_multiset() == old(v)@.to_multiset(),
            forall|k: Seq<char>| #[trigger] named(v@, k) == named(old(v)@, k),
            forall|a: int, b: int| 0 <= a < b < i ==> name_le(key_of(v@, a), key_of(v@, b)),
        decreases n - i,
    {
        let mut j: usize = i;
        while j > 0 && precedes(v[j].0.as_str(), v[j - 1].0.as_str())
            invariant
                0 <= j <= i < n,
                v@.len() == n,
                v@.to_multiset() == old(v)@.to_multiset(),
                forall|k: Seq<char>| #[trigger] named(v@, k) == named(old(v)@, k),
                forall|a: int, b: int| 0 <= a < b <= i && a != j && b != j ==> name_le(key_of(v@, a), key_of(v@, b)),
                forall|b: int| j < b <= i ==> name_le(key_of(v@, j as int), key_of(v@, b)),
            decreases j,
        {
            let ghost before = v@;
            let x = v.remove(j);
            v.insert(j - 1, x);
            proof {
                assert(v@.to_multiset() == before.to_multiset()) by {
                    broadcast use vstd::multiset::group_multiset_axioms;
                    vstd::seq_lib::to_multiset_remove(before, j as int);
                    vstd::seq_lib::to_multiset_insert(before.remove(j as int), j - 1, before[j as int]);
                    assert(before.to_multiset().count(before[j as int]) > 0) by {
                        vstd::seq_lib::to_multiset_contains(before, before[j as int]);
                    }
                    assert(before.to_multiset().remove(before[j as int]).insert(before[j as int])
                        =~= before.to_multiset());
                }
                assert(v@[j - 1] == before[j as int] && v@[j as int] == before[j - 1]);
                assert(forall|k: int| 0 <= k < n && k != j && k != j - 1 ==> v@[k] == before[k]);
                assert(v@ =~= before.update(j - 1, before[j as int]).update(j as int, before[j - 1]));
                lemma_name_irreflexive(key_of(before, j as int));
                assert forall|k: Seq<char>| #[trigger] named(v@, k) == named(old(v)@, k) by {
                    lemma_named_swap(before, j as int, k);
                }
                lemma_name_total(key_of(before, j as int), key_of(before, j - 1));
                assert forall|a: int, b: int| 0 <= a < b <= i && a != j - 1 && b != j - 1 implies name_le(
                    key_of(v@, a), key_of(v@, b)) by {
                    if b == j {
                        assert(key_of(v@, b) == key_of(before, j - 1));
                        assert(key_of(v@, a) == key_of(before, a));
                        assert(name_le(key_of(before, a), key_of(before, j - 1)));
                    } else if a == j {
                        assert(key_of(v@, a) == key_of(before, j - 1));
                        assert(key_of(v@, b) == key_of(before, b));
                        assert(name_le(key_of(before, j - 1), key_of(before, b)));
                    } else {
                        assert(key_of(v@, a) == key_of(before, a));
                        assert(key_of(v@, b) == key_of(before, b));
                        assert(name_le(key_of(before, a), key_of(before, b)));
                    }
                }
                assert forall|b: int| j - 1 < b <= i implies name_le(key_of(v@, j - 1), #[trigger] key_of(v@, b)) by {
                    assert(key_of(v@, j - 1) == key_of(before, j as int));
                    if b == j {
                        assert(key_of(v@, b) == key_of(before, j - 1));
                    } else {
                        assert(key_of(v@, b) == key_of(before, b));
                        assert(name_le(key_of(before, j as int), key_of(before, b)));
                    }
                }
            }
            j = j - 1;
        }
        proof {
            assert forall|a: int, b: int| 0 <= a < b <= i implies name_le(key_of(v@, a), key_of(v@, b)) by {
                if b == j && a < j {
                    assert(name_le(key_of(v@, j - 1), key_of(v@, j as int)));
                    if a < j - 1 {
                        lemma_name_trans(key_of(v@, a), key_of(v@, j - 1), key_of(v@, j as int));
                    }
                }
            }
        }
        i = i + 1;
    }
}

/// The entries of a directory that a picker lists, in the order read: the
/// directories when `dirs` is set, the files otherwise, each as its name and
/// whether it is a directory.
pub open spec fn kept_entries(found: Seq<(String, bool, bool)>, dirs: bool, mode: PickerMode, show_hidden: bool) -> Seq<(String, bool)>
    decreases found.len(),
{
    if found.len() == 0 {
        seq![]
    } else {
        let rest = kept_entries(found.drop_last(), dirs, mode, show_hidden);
        let e = found.last();
        if e.1 == dirs && listed(e.0@, e.1, mode, show_hidden, e.2) {
            rest.push((e.0, e.1))
        } else {
            rest
        }
    }
}

/// Builds a picker's listing from the entries of a directory, each given as its
/// name, whether it is a directory and whether it is executable: the listed
/// directories sorted by name, then the listed files sorted by name (entries of
/// the same name keep the order in which they were read).
pub fn arrange_listing(found: Vec<(String, bool, bool)>, mode: PickerMode, show_hidden: bool) -> (r: Vec<(String, bool)>)
    ensures
        ({
            let d = kept_entries(found@, true, mode, show_hidden);
            let f = kept_entries(found@, false, mode, show_hidden);
            &&& r@.len() == d.len() + f.len()
            &&& r@.take(d.len() as int).to_multiset() == d.to_multiset()
            &&& r@.skip(d.len() as int).to_multiset() == f.to_multiset()
            &&& forall|k: Seq<char>| #[trigger] named(r@.take(d.len() as int), k) == named(d, k)
            &&& forall|k: Seq<char>| #[trigger] named(r@.skip(d.len() as int), k) == named(f, k)
            &&& forall|i: int, j: int| 0 <= i < j < d.len() ==> name_le(key_of(r@, i), key_of(r@, j))
            &&& forall|i: int, j: int| d.len() <= i < j < r@.len() ==> name_le(key_of(r@, i), key_of(r@, j))
        }),
{
    let ghost orig = found@;
    let mut found = found;
    let mut dirs: Vec<(String, bool)> = Vec::new();
    let mut files: Vec<(String, bool)> = Vec::new();
    let n = found.len();
    for i in 0..n
        invariant
            n == orig.len(),
            found@.len() == n,
            forall|j: int| i <= j < n ==> found@[j] == orig[j],
            dirs@ == kept_entries(orig.take(i as int), true, mode, show_hidden),
            files@ == kept_entries(orig.take(i as int), false, mode, show_hidden),
    {
        let mut e: (String, bool, bool) = (String::new(), false, false);
        std::mem::swap(&mut e, &mut found[i]);
        assert(e == orig[i as int]);
        assert(orig.take(i + 1).drop_last() == orig.take(i as int));
        let (name, is_dir, executable) = e;
        if keep_in_listing(name.as_str(), is_dir, mode, show_hidden, executable) {
            if is_dir {
                dirs.push((name, true));
            } else {
                files.push((name, false));
            }
        }
    }
    assert(orig.take(n as int) == orig);
    let ghost d = dirs@;
    let ghost f = files@;
    sort_by_name(&mut dirs);
    sort_by_name(&mut files);
    let ghost sd = dirs@;
    let ghost sf = files@;
    dirs.append(&mut files);
    assert(dirs@.take(sd.len() as int) == sd);
    assert(dirs@.skip(sd.len() as int) == sf);
    proof {
        vstd::seq_lib::to_multiset_len(d);
        vstd::seq_lib::to_multiset_len(sd);
        vstd::seq_lib::to_multiset_len(f);
        vstd::seq_lib::to_multiset_len(sf);
    }
    assert forall|i: int, j: int| 0 <= i < j < d.len() implies name_le(key_of(dirs@, i), key_of(dirs@, j)) by {
        assert(key_of(dirs@, i) == key_of(sd, i) && key_of(dirs@, j) == key_of(sd, j));
    }
    assert forall|i: int, j: int| d.len() <= i < j < dirs@.len() implies name_le(key_of(dirs@, i), key_of(dirs@, j)) by {
        assert(key_of(dirs@, i) == key_of(sf, i - sd.len()) && key_of(dirs@, j) == key_of(sf, j - sd.len()));
    }
    dirs
}

// ── Cached icon names ────────────────────────────────────────────────────────

/// Whether `char::is_alphanumeric` holds: Unicode `Alphabetic` or `Numeric`.
pub uninterp spec fn alphanumeric(c: char) -> bool;

/// Calls `char::is_alphanumeric`, whose answer is named `alphanumeric`.
#[verifier::external_body]
fn is_alphanumeric(c: char) -> (r: bool)
    ensures
        r == alphanumeric(c),
{
    c.is_alphanumeric()
}

/// The character kept in a cached file name: letters, digits, `-` and `_`
/// stay, anything else becomes `_`.
pub open spec fn safe_char(c: char) -> char {
    if alphanumeric(c) || c == '-' || c == '_' { c } else { '_' }
}

/// A cached icon's file name is the entry's name, character for character,
/// with `.png` after it: each character stays or becomes `_`, and `-` and `_`
/// always stay.
pub proof fn cached_name_shape(name: Seq<char>)
    ensures
        ({
            let r = name.map_values(|c: char| safe_char(c)) + ".png"@;
            &&& r.len() == name.len() + 4
            &&& r.subrange(name.len() as int, r.len() as int) == ".png"@
            &&& forall|i: int| 0 <= i < name.len() ==> (#[trigger] r[i] == name[i] || r[i] == '_')
            &&& forall|i: int| 0 <= i < name.len() && (name[i] == '-' || name[i] == '_') ==> #[trigger] r[i] == name[i]
        }),
{
    reveal_strlit(".png");
    let m = name.map_values(|c: char| safe_char(c));
    let r = m + ".png"@;
    assert(r.subrange(name.len() as int, r.len() as int) =~= ".png"@);
    assert forall|i: int| 0 <= i < name.len() implies #[trigger] r[i] == safe_char(name[i]) by {
        assert(r[i] == m[i]);
    }
}

/// The file name under which the processed icon of an entry is cached: the
/// entry's name made safe character by character, then `.png`.
pub fn cached_icon_name(entry_name: &str) -> (r: String)
    ensures
        r@ == entry_name@.map_values(|c: char| safe_char(c)) + ".png"@,
{
    let cs = chars_of(entry_name);
    let mut out = String::new();
    for i in 0..cs.len()
        invariant
            cs@ == entry_name@,
            out@ == cs@.take(i as int).map_values(|c: char| safe_char(c)),
    {
        let c = cs[i];
        let k = if is_alphanumeric(c) || c == '-' || c == '_' { c } else { '_' };
        push_char(&mut out, k);
        assert(cs@.take(i + 1) == cs@.take(i as int).push(c));
    }
    assert(cs@.take(cs@.len() as int) == cs@);
    out.append(".png");
    out
}

// ── Desktop files offered by the desktop-file picker ────────────────────────

/// The choice a decoded desktop file offers: its name and path, unless it is
/// hidden or has no name.
pub open spec fn offered(path: Seq<char>, info: Option<DesktopInfo>) -> Option<(Seq<char>, Seq<char>)> {
    match info {
        Some(i) => if i.no_display {
            None
        } else {
            match opt_view(i.name) {
                Some(n) => Some((n, path)),
                None => None,
            }
        },
        None => None,
    }
}

/// The `(name, path)` choice of a decoded desktop file (see [`offered`]).
pub fn choice_from_info(path: String, info: Option<DesktopInfo>) -> (r: Option<(String, String)>)
    ensures
        match r {
            Some(p) => offered(path@, info) == Some((p.0@, p.1@)),
            None => offered(path@, info) is None,
        },
{
    match info {
        Some(i) => {
            if i.no_display {
                return None;
            }
            match i.name {
                Some(n) => Some((n, path)),
                None => None,
            }
        },
        None => None,
    }
}

/// Decodes a desktop file for the desktop-file picker and answers its
/// `(name, path)` choice; nothing when it does not decode, is hidden or has no name.
pub fn desktop_file_choice(path: String, content: &str) -> (r: Option<(String, String)>)
    ensures
        r is Some <==> (desktop_decodes(path@, content@) && !desktop_no_display(path@, content@)
            && desktop_name(path@, content@) is Some),
        r matches Some(p) ==> desktop_name(path@, content@) == Some(p.0@) && p.1@ == path@,
{
    let info = read_desktop_entry(path.as_str(), content);
    choice_from_info(path, info)
}

} // verus!
