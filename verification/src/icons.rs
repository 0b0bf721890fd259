//! The icon cache's index file: which processed image stands for which source
//! icon, one `source=cached` line per entry.

use vstd::prelude::*;
use vstd::string::*;
use crate::launcher::{keys_distinct, key_at, store, lookup};
use crate::text::{chars_of, push_char, string_of};

verus! {

/// The line with one trailing carriage return removed.
pub open spec fn strip_cr(l: Seq<char>) -> Seq<char> {
    if l.len() > 0 && l.last() == '\r' {
        l.drop_last()
    } else {
        l
    }
}

/// Reading `s` left to right: the finished lines and the line being read.
pub open spec fn scan_lines(s: Seq<char>) -> (Seq<Seq<char>>, Seq<char>)
    decreases s.len(),
{
    if s.len() == 0 {
        (seq![], seq![])
    } else {
        let st = scan_lines(s.drop_last());
        if s.last() == '\n' {
            (st.0.push(strip_cr(st.1)), seq![])
        } else {
            (st.0, st.1.push(s.last()))
        }
    }
}

/// The lines of `s`, as `str::lines` yields them: split at `\n`, a `\r` before
/// the `\n` removed, and no empty last line after a final line ending.
pub open spec fn text_lines(s: Seq<char>) -> Seq<Seq<char>> {
    let st = scan_lines(s);
    if st.1.len() > 0 {
        st.0.push(st.1)
    } else {
        st.0
    }
}

/// The lines of a text, as `str::lines` yields them (see [`text_lines`]).
pub fn split_lines(content: &str) -> (r: Vec<String>)
    ensures
        crate::text::views(r@) == text_lines(content@),
{
    let cs = chars_of(content);
    let mut out: Vec<String> = Vec::new();
    let mut cur: Vec<char> = Vec::new();
    for i in 0..cs.len()
        invariant
            cs@ == content@,
            crate::text::views(out@) == scan_lines(cs@.take(i as int)).0,
            cur@ == scan_lines(cs@.take(i as int)).1,
    {
        proof {
            assert(cs@.take(i + 1).drop_last() == cs@.take(i as int));
            assert(cs@.take(i + 1).last() == cs@[i as int]);
        }
        if cs[i] == '\n' {
            if cur.len() > 0 && cur[cur.len() - 1] == '\r' {
                cur.pop();
            }
            let line = string_of(&cur);
            let ghost before = crate::text::views(out@);
            out.push(line);
            assert(crate::text::views(out@) == before.push(cur@));
            cur = Vec::new();
        } else {
            cur.push(cs[i]);
        }
    }
    assert(cs@.take(cs@.len() as int) == cs@);
    if cur.len() > 0 {
        let line = string_of(&cur);
        let ghost before = crate::text::views(out@);
        out.push(line);
        assert(crate::text::views(out@) == before.push(cur@));
    }
    out
}

/// Position `i` holds the first `=` of `l`.
pub open spec fn first_eq_at(l: Seq<char>, i: int) -> bool {
    0 <= i < l.len() && l[i] == '=' && forall|j: int| 0 <= j < i ==> l[j] != '='
}

/// The line split at its first `=`, as `str::split_once('=')` does.
pub open spec fn split_eq(l: Seq<char>) -> Option<(Seq<char>, Seq<char>)> {
    if exists|i: int| first_eq_at(l, i) {
        let i = choose|i: int| first_eq_at(l, i);
        Some((l.take(i), l.skip(i + 1)))
    } else {
        None
    }
}

/// The index after reading `lines` into `c`: each line with an `=` maps the
/// text before it to the text after it, a later line replacing an earlier one.
pub open spec fn read_lines(c: Seq<(Seq<char>, Seq<char>)>, lines: Seq<Seq<char>>) -> Seq<(Seq<char>, Seq<char>)>
    decreases lines.len(),
{
    if lines.len() == 0 {
        c
    } else {
        let before = read_lines(c, lines.drop_last());
        match split_eq(lines.last()) {
            Some(kv) => store(before, kv.0, kv.1),
            None => before,
        }
    }
}

/// The index a file's text gives.
pub open spec fn parsed_index(s: Seq<char>) -> Seq<(Seq<char>, Seq<char>)> {
    read_lines(seq![], text_lines(s))
}

/// The text of an index: `key=value` and a line ending per entry, in order.
pub open spec fn index_text(c: Seq<(Seq<char>, Seq<char>)>) -> Seq<char>
    decreases c.len(),
{
    if c.len() == 0 {
        seq![]
    } else {
        index_text(c.drop_last()) + c.last().0 + seq!['='] + c.last().1 + seq!['\n']
    }
}

/// The views of string pairs.
pub open spec fn pair_views(s: Seq<(String, String)>) -> Seq<(Seq<char>, Seq<char>)> {
    s.map_values(|p: (String, String)| (p.0@, p.1@))
}

/// Maps source icon paths to the names of their processed copies.
pub struct IconMap {
    entries: Vec<(String, String)>,
}

impl View for IconMap {
    type V = Seq<(Seq<char>, Seq<char>)>;

    closed spec fn view(&self) -> Seq<(Seq<char>, Seq<char>)> {
        pair_views(self.entries@)
    }
}

fn find_pair(entries: &Vec<(String, String)>, key: &str) -> (r: Option<usize>)
    ensures
        match r {
            Some(i) => key_at(pair_views(entries@), key@, i as int),
            None => !exists|i: int| key_at(pair_views(entries@), key@, i),
        },
{
    for i in 0..entries.len()
        invariant
            forall|j: int| 0 <= j < i ==> !key_at(pair_views(entries@), key@, j),
    {
        if crate::text::str_eq(entries[i].0.as_str(), key) {
            return Some(i);
        }
    }
    None
}

proof fn lemma_store_at<T>(c: Seq<(Seq<char>, T)>, key: Seq<char>, v: T, i: int)
    requires
        keys_distinct(c),
        key_at(c, key, i),
    ensures
        store(c, key, v) == c.update(i, (key, v)),
{
}

impl IconMap {
    #[verifier::type_invariant]
    spec fn inv(&self) -> bool {
        keys_distinct(self@)
    }

    /// An empty index.
    pub fn new() -> (r: Self)
        ensures
            r@ == Seq::<(Seq<char>, Seq<char>)>::empty(),
    {
        let r = IconMap { entries: Vec::new() };
        assert(r@ == Seq::<(Seq<char>, Seq<char>)>::empty());
        r
    }

    /// The number of entries.
    pub fn len(&self) -> (r: usize)
        ensures
            r == self@.len(),
    {
        self.entries.len()
    }

    /// The cached name recorded for `source`.
    pub fn get(&self, source: &str) -> (r: Option<&String>)
        ensures
            match r {
                Some(v) => lookup(self@, source@) == Some(v@),
                None => lookup(self@, source@) is None,
            },
    {
        proof { use_type_invariant(self); }
        match find_pair(&self.entries, source) {
            Some(i) => {
                proof { crate::launcher::lemma_lookup_at(self@, source@, i as int); }
                Some(&self.entries[i].1)
            },
            None => None,
        }
    }

    /// Records `cached` for `source`, replacing an earlier entry for it.
    pub fn insert(&mut self, source: String, cached: String)
        ensures
            final(self)@ == store(old(self)@, source@, cached@),
    {
        proof { use_type_invariant(&*self); }
        let ghost kv = source@;
        let ghost vv = cached@;
        let ghost before = self@;
        let mut entries: Vec<(String, String)> = Vec::new();
        std::mem::swap(&mut entries, &mut self.entries);
        assert(pair_views(entries@) == before);
        match find_pair(&entries, source.as_str()) {
            Some(i) => {
                proof { lemma_store_at(before, kv, vv, i as int); }
                entries.set(i, (source, cached));
                assert(pair_views(entries@) == before.update(i as int, (kv, vv)));
            },
            None => {
                entries.push((source, cached));
                assert(pair_views(entries@) == before.push((kv, vv)));
            },
        }
        proof { crate::launcher::lemma_store_distinct(before, kv, vv); }
        self.entries = entries;
    }

    /// The index file's text: `source=cached` and a line ending per entry.
    pub fn to_text(&self) -> (r: String)
        ensures
            r@ == index_text(self@),
    {
        let mut out = String::new();
        for i in 0..self.entries.len()
            invariant
                out@ == index_text(self@.take(i as int)),
        {
            out.append(self.entries[i].0.as_str());
            push_char(&mut out, '=');
            out.append(self.entries[i].1.as_str());
            push_char(&mut out, '\n');
            assert(self@.take(i + 1).drop_last() == self@.take(i as int));
        }
        assert(self@.take(self@.len() as int) == self@);
        out
    }

    /// Reads an index file's text (see [`parsed_index`]).
    pub fn parse(content: &str) -> (r: IconMap)
        ensures
            r@ == parsed_index(content@),
    {
        let cs = chars_of(content);
        let mut map = IconMap::new();
        let mut cur: Vec<char> = Vec::new();
        for i in 0..cs.len()
            invariant
                cs@ == content@,
                map@ == read_lines(seq![], scan_lines(cs@.take(i as int)).0),
                cur@ == scan_lines(cs@.take(i as int)).1,
        {
            proof {
                assert(cs@.take(i + 1).drop_last() == cs@.take(i as int));
                assert(cs@.take(i + 1).last() == cs@[i as int]);
            }
            if cs[i] == '\n' {
                let ghost done = scan_lines(cs@.take(i as int)).0;
                if cur.len() > 0 && cur[cur.len() - 1] == '\r' {
                    cur.pop();
                }
                map.read_line(&cur);
                assert(done.push(cur@).drop_last() == done);
                cur = Vec::new();
            } else {
                cur.push(cs[i]);
            }
        }
        assert(cs@.take(cs@.len() as int) == cs@);
        if cur.len() > 0 {
            let ghost done = scan_lines(cs@).0;
            map.read_line(&cur);
            assert(done.push(cur@).drop_last() == done);
        }
        map
    }

    fn read_line(&mut self, line: &Vec<char>)
        ensures
            final(self)@ == match split_eq(line@) {
                Some(kv) => store(old(self)@, kv.0, kv.1),
                None => old(self)@,
            },
    {
        let mut k: usize = 0;
        let mut found = false;
        for i in 0..line.len()
            invariant
                found ==> first_eq_at(line@, k as int),
                !found ==> forall|j: int| 0 <= j < i ==> line@[j] != '=',
        {
            if !found && line[i] == '=' {
                found = true;
                k = i;
            }
        }
        if !found {
            assert(!exists|i: int| first_eq_at(line@, i));
            return;
        }
        assert(forall|i: int| first_eq_at(line@, i) ==> i == k);
        let mut key_chars: Vec<char> = Vec::new();
        for j in 0..k
            invariant
                k < line.len(),
                key_chars@ == line@.take(j as int),
        {
            key_chars.push(line[j]);
            assert(line@.take(j + 1) == line@.take(j as int).push(line@[j as int]));
        }
        let mut value_chars: Vec<char> = Vec::new();
        for j in k + 1..line.len()
            invariant
                k < line.len(),
                value_chars@ == line@.subrange(k + 1, j as int),
        {
            value_chars.push(line[j]);
            assert(line@.subrange(k + 1, j + 1) == line@.subrange(k + 1, j as int).push(line@[j as int]));
        }
        assert(value_chars@ == line@.skip(k + 1));
        self.insert(string_of(&key_chars), string_of(&value_chars));
    }
}

// ── Pixels for cairo ─────────────────────────────────────────────────────────

/// The bytes of RGBA pixels in the order cairo's ARGB32 format keeps them in
/// memory on a little-endian machine: blue, green, red, alpha.
pub fn cairo_pixels(rgba: &Vec<u8>) -> (r: Vec<u8>)
    requires
        rgba.len() % 4 == 0,
    ensures
        r.len() == rgba.len(),
        forall|p: int| 0 <= p < rgba.len() / 4 ==> {
            &&& #[trigger] r[4 * p] == rgba[4 * p + 2]
            &&& r[4 * p + 1] == rgba[4 * p + 1]
            &&& r[4 * p + 2] == rgba[4 * p]
            &&& r[4 * p + 3] == rgba[4 * p + 3]
        },
{
    let mut out: Vec<u8> = Vec::new();
    let n = rgba.len() / 4;
    for p in 0..n
        invariant
            n == rgba.len() / 4,
            rgba.len() % 4 == 0,
            out.len() == 4 * p,
            forall|q: int| 0 <= q < p ==> {
                &&& #[trigger] out@[4 * q] == rgba@[4 * q + 2]
                &&& out@[4 * q + 1] == rgba@[4 * q + 1]
                &&& out@[4 * q + 2] == rgba@[4 * q]
                &&& out@[4 * q + 3] == rgba@[4 * q + 3]
            },
    {
        let i = 4 * p;
        let ghost before = out@;
        out.push(rgba[i + 2]);
        out.push(rgba[i + 1]);
        out.push(rgba[i]);
        out.push(rgba[i + 3]);
        assert forall|q: int| 0 <= q < p + 1 implies {
            &&& #[trigger] out@[4 * q] == rgba@[4 * q + 2]
            &&& out@[4 * q + 1] == rgba@[4 * q + 1]
            &&& out@[4 * q + 2] == rgba@[4 * q]
            &&& out@[4 * q + 3] == rgba@[4 * q + 3]
        } by {
            if q < p {
                assert(out@[4 * q] == before[4 * q]);
                assert(out@[4 * q + 1] == before[4 * q + 1]);
                assert(out@[4 * q + 2] == before[4 * q + 2]);
                assert(out@[4 * q + 3] == before[4 * q + 3]);
            }
        }
    }
    out
}

// ── The index file reads back what was written ──────────────────────────────

/// The entry can be written on one line and read back: the key holds no `=` and
/// no line ending, the value no line ending and no carriage return at its end.
pub open spec fn writable(k: Seq<char>, v: Seq<char>) -> bool {
    (forall|i: int| 0 <= i < k.len() ==> k[i] != '=' && k[i] != '\n')
        && (forall|i: int| 0 <= i < v.len() ==> v[i] != '\n')
        && !(v.len() > 0 && v.last() == '\r')
}

/// The line written for an entry.
pub open spec fn entry_line(k: Seq<char>, v: Seq<char>) -> Seq<char> {
    k + seq!['='] + v
}

/// The lines written for an index.
pub open spec fn index_lines(c: Seq<(Seq<char>, Seq<char>)>) -> Seq<Seq<char>>
    decreases c.len(),
{
    if c.len() == 0 {
        seq![]
    } else {
        index_lines(c.drop_last()).push(entry_line(c.last().0, c.last().1))
    }
}

proof fn lemma_scan_append(a: Seq<char>, b: Seq<char>)
    requires
        scan_lines(a).1.len() == 0,
    ensures
        scan_lines(a + b) == (scan_lines(a).0 + scan_lines(b).0, scan_lines(b).1),
    decreases b.len(),
{
    if b.len() == 0 {
        assert(a + b == a);
        assert(scan_lines(a).0 + Seq::<Seq<char>>::empty() == scan_lines(a).0);
    } else {
        lemma_scan_append(a, b.drop_last());
        assert((a + b).drop_last() == a + b.drop_last());
        assert((a + b).last() == b.last());
        let x = scan_lines(a).0;
        let y = scan_lines(b.drop_last()).0;
        if b.last() == '\n' {
            assert((x + y).push(strip_cr(scan_lines(b.drop_last()).1)) == x + y.push(strip_cr(scan_lines(b.drop_last()).1)));
        }
    }
}

proof fn lemma_scan_plain(w: Seq<char>)
    requires
        forall|i: int| 0 <= i < w.len() ==> w[i] != '\n',
    ensures
        scan_lines(w) == (Seq::<Seq<char>>::empty(), w),
    decreases w.len(),
{
    if w.len() > 0 {
        lemma_scan_plain(w.drop_last());
        assert(w.drop_last().push(w.last()) == w);
    }
}

proof fn lemma_scan_index(c: Seq<(Seq<char>, Seq<char>)>)
    requires
        forall|i: int| 0 <= i < c.len() ==> writable(#[trigger] c[i].0, c[i].1),
    ensures
        scan_lines(index_text(c)) == (index_lines(c), Seq::<char>::empty()),
    decreases c.len(),
{
    if c.len() > 0 {
        let d = c.drop_last();
        assert forall|i: int| 0 <= i < d.len() implies writable(#[trigger] d[i].0, d[i].1) by {
            assert(d[i] == c[i]);
        }
        lemma_scan_index(d);
        let (k, v) = c.last();
        assert(writable(c[c.len() - 1].0, c[c.len() - 1].1));
        let w = entry_line(k, v);
        assert forall|i: int| 0 <= i < w.len() implies w[i] != '\n' by {
            if i < k.len() {
                assert(w[i] == k[i]);
            } else if i > k.len() {
                assert(w[i] == v[i - k.len() - 1]);
            }
        }
        lemma_scan_plain(w);
        let line = w + seq!['\n'];
        assert(line.drop_last() == w);
        assert(strip_cr(w) == w) by {
            if v.len() > 0 {
                assert(w.last() == v.last());
            }
        }
        assert(scan_lines(line) == (seq![w], Seq::<char>::empty()));
        assert(index_text(c) == index_text(d) + line);
        lemma_scan_append(index_text(d), line);
        assert(index_lines(d) + seq![w] == index_lines(d).push(w));
    }
}

proof fn lemma_split_line(k: Seq<char>, v: Seq<char>)
    requires
        writable(k, v),
    ensures
        split_eq(entry_line(k, v)) == Some((k, v)),
{
    let l = entry_line(k, v);
    assert(first_eq_at(l, k.len() as int));
    assert forall|i: int| first_eq_at(l, i) implies i == k.len() by {
        if i < k.len() {
            assert(l[i] == k[i]);
        }
    }
    assert(l.take(k.len() as int) == k);
    assert(l.skip(k.len() + 1 as int) == v);
}

proof fn lemma_read_index(c: Seq<(Seq<char>, Seq<char>)>)
    requires
        keys_distinct(c),
        forall|i: int| 0 <= i < c.len() ==> writable(#[trigger] c[i].0, c[i].1),
    ensures
        read_lines(seq![], index_lines(c)) == c,
    decreases c.len(),
{
    if c.len() > 0 {
        let d = c.drop_last();
        assert forall|i: int| 0 <= i < d.len() implies writable(#[trigger] d[i].0, d[i].1) by {
            assert(d[i] == c[i]);
        }
        assert(keys_distinct(d));
        lemma_read_index(d);
        let (k, v) = c.last();
        assert(writable(c[c.len() - 1].0, c[c.len() - 1].1));
        lemma_split_line(k, v);
        assert(index_lines(c).drop_last() == index_lines(d));
        assert(!exists|i: int| key_at(d, k, i)) by {
            assert forall|i: int| !key_at(d, k, i) by {
                if 0 <= i < d.len() {
                    assert(c[i].0 != c[c.len() - 1].0);
                }
            }
        }
        assert(d.push((k, v)) == c);
    }
}

/// Reading back the text written for an index gives the same index, when its
/// entries can be written on single lines.
pub proof fn index_text_reads_back(c: Seq<(Seq<char>, Seq<char>)>)
    requires
        keys_distinct(c),
        forall|i: int| 0 <= i < c.len() ==> writable(#[trigger] c[i].0, c[i].1),
    ensures
        parsed_index(index_text(c)) == c,
{
    lemma_scan_index(c);
    lemma_read_index(c);
}

} // verus!
