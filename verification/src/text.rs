//! Character-level helpers shared by the launcher and the configuration editor:
//! white-space splitting, exec-line tokenising, substring search.

use vstd::prelude::*;

verus! {

/// The lower-case form that `str::to_lowercase` computes (Unicode case mapping).
pub uninterp spec fn lowercase(s: Seq<char>) -> Seq<char>;

/// Every character is ASCII.
pub open spec fn ascii_text(s: Seq<char>) -> bool {
    forall|i: int| 0 <= i < s.len() ==> (s[i] as u32) < 128
}

/// The ASCII lower case of a character: `A`..`Z` become `a`..`z`, others stay.
pub open spec fn ascii_lower(c: char) -> char {
    if 'A' <= c && c <= 'Z' { ((c as u32) + 32) as char } else { c }
}

/// Calls `str::to_lowercase`. Its result is named `lowercase` of the input's
/// characters: the same input always gives the same lower-case string. For
/// ASCII text it is, as std documents, each character in ASCII lower case.
#[verifier::external_body]
pub(crate) fn to_lowercase(s: &str) -> (r: String)
    ensures
        r@ == lowercase(s@),
        ascii_text(s@) ==> r@ == s@.map_values(|c: char| ascii_lower(c)),
{
    s.to_lowercase()
}

/// Calls `String::push`, which appends one character at the end.
#[verifier::external_body]
pub(crate) fn push_char(s: &mut String, c: char)
    ensures
        final(s)@ == old(s)@.push(c),
{
    s.push(c)
}

/// The view of each string of a sequence.
pub open spec fn views(v: Seq<String>) -> Seq<Seq<char>> {
    v.map_values(|s: String| s@)
}

/// The characters of `s`, in order.
pub fn chars_of(s: &str) -> (v: Vec<char>)
    ensures
        v@ == s@,
{
    let mut v: Vec<char> = Vec::new();
    for c in it: s.chars()
        invariant
            v@ == it.seq().take(it.index()),
            it.seq() == s@,
    {
        v.push(c);
    }
    v
}

/// A string made of the given characters.
pub fn string_of(cs: &Vec<char>) -> (s: String)
    ensures
        s@ == cs@,
{
    let mut s = String::new();
    for i in 0..cs.len()
        invariant
            s@ == cs@.take(i as int),
    {
        push_char(&mut s, cs[i]);
        assert(cs@.take(i + 1) == cs@.take(i as int).push(cs@[i as int]));
    }
    assert(cs@.take(cs.len() as int) == cs@);
    s
}

/// Equality of two string slices, character by character.
pub fn str_eq(a: &str, b: &str) -> (r: bool)
    ensures
        r == (a@ == b@),
{
    let x = a.to_owned();
    let y = b.to_owned();
    x == y
}

// ── White space ──────────────────────────────────────────────────────────────

/// The characters with the Unicode `White_Space` property, the set that
/// `char::is_whitespace` tests.
pub open spec fn is_white(c: char) -> bool {
    let n = c as u32;
    (0x9 <= n && n <= 0xd) || n == 0x20 || n == 0x85 || n == 0xa0 || n == 0x1680
        || (0x2000 <= n && n <= 0x200a) || n == 0x2028 || n == 0x2029 || n == 0x202f
        || n == 0x205f || n == 0x3000
}

/// Whether `c` has the Unicode `White_Space` property.
pub fn is_white_char(c: char) -> (r: bool)
    ensures
        r == is_white(c),
{
    let n = c as u32;
    (0x9 <= n && n <= 0xd) || n == 0x20 || n == 0x85 || n == 0xa0 || n == 0x1680
        || (0x2000 <= n && n <= 0x200a) || n == 0x2028 || n == 0x2029 || n == 0x202f
        || n == 0x205f || n == 0x3000
}

/// The maximal runs of non-white characters of `s`, in order: what
/// `str::split_whitespace` yields.
pub open spec fn words(s: Seq<char>) -> Seq<Seq<char>>
    decreases s.len(),
{
    if s.len() == 0 {
        seq![]
    } else {
        let w = words(s.drop_last());
        let c = s.last();
        if is_white(c) {
            w
        } else if s.len() >= 2 && !is_white(s[s.len() - 2]) {
            w.update(w.len() - 1, w.last().push(c))
        } else {
            w.push(seq![c])
        }
    }
}

/// Words that do not start with `%` (field codes of a desktop exec line are
/// dropped), in order.
pub open spec fn without_field_codes(ws: Seq<Seq<char>>) -> Seq<Seq<char>>
    decreases ws.len(),
{
    if ws.len() == 0 {
        seq![]
    } else {
        let rest = without_field_codes(ws.drop_last());
        let w = ws.last();
        if w.len() > 0 && w[0] == '%' {
            rest
        } else {
            rest.push(w)
        }
    }
}

/// The words joined with a single space between neighbours.
pub open spec fn join_spaced(ws: Seq<Seq<char>>) -> Seq<char>
    decreases ws.len(),
{
    if ws.len() == 0 {
        seq![]
    } else if ws.len() == 1 {
        ws[0]
    } else {
        join_spaced(ws.drop_last()) + seq![' '] + ws.last()
    }
}

/// What the launcher keeps of an exec line: its words, without the `%` field
/// codes, joined by single spaces.
pub open spec fn cleaned_exec(s: Seq<char>) -> Seq<char> {
    join_spaced(without_field_codes(words(s)))
}

proof fn lemma_join_push(ws: Seq<Seq<char>>, w: Seq<char>)
    ensures
        join_spaced(ws.push(w)) == (if ws.len() == 0 { w } else { join_spaced(ws) + seq![' '] + w }),
{
    assert(ws.push(w).drop_last() == ws);
}

proof fn lemma_codes_push(ws: Seq<Seq<char>>, w: Seq<char>)
    ensures
        without_field_codes(ws.push(w)) == (if w.len() > 0 && w[0] == '%' {
            without_field_codes(ws)
        } else {
            without_field_codes(ws).push(w)
        }),
{
    assert(ws.push(w).drop_last() == ws);
}

/// Taking one more character of `s` appends `s[i]` and keeps the ones before.
proof fn lemma_words_step(s: Seq<char>, i: int)
    requires
        0 <= i < s.len(),
    ensures
        s.take(i + 1).drop_last() == s.take(i),
        s.take(i + 1).last() == s[i],
        i >= 1 ==> s.take(i + 1)[i - 1] == s[i - 1],
{
}

/// Drops the `%` field codes of a desktop exec line and normalises the white
/// space between the remaining words to single spaces.
pub fn clean_exec(exec: &str) -> (r: String)
    ensures
        r@ == cleaned_exec(exec@),
{
    let cs = chars_of(exec);
    let mut out = String::new();
    let mut kept: usize = 0;
    let mut cur: Vec<char> = Vec::new();
    let ghost mut done: Seq<Seq<char>> = seq![];
    for i in 0..cs.len()
        invariant
            cs@ == exec@,
            cur@.len() > 0 ==> words(cs@.take(i as int)) == done.push(cur@),
            cur@.len() == 0 ==> words(cs@.take(i as int)) == done,
            cur@.len() > 0 <==> (i > 0 && !is_white(cs@[i - 1])),
            out@ == join_spaced(without_field_codes(done)),
            kept as nat == without_field_codes(done).len(),
            kept <= i,
    {
        let c = cs[i];
        proof {
            lemma_words_step(cs@, i as int);
        }
        if is_white_char(c) {
            if cur.len() > 0 {
                let ghost w = cur@;
                if cur[0] != '%' {
                    if kept > 0 {
                        push_char(&mut out, ' ');
                    }
                    for j in 0..cur.len()
                        invariant
                            kept > 0 ==> out@ == join_spaced(without_field_codes(done)) + seq![' '] + cur@.take(j as int),
                            kept == 0 ==> out@ == cur@.take(j as int),
                    {
                        push_char(&mut out, cur[j]);
                        assert(cur@.take(j + 1) == cur@.take(j as int).push(cur@[j as int]));
                    }
                    assert(cur@.take(cur.len() as int) == cur@);
                    kept = kept + 1;
                }
                proof {
                    lemma_codes_push(done, w);
                    lemma_join_push(without_field_codes(done), w);
                    done = done.push(w);
                }
                cur = Vec::new();
            }
        } else {
            let ghost before = cur@;
            cur.push(c);
            proof {
                if before.len() > 0 {
                    assert(done.push(before).update(done.len() as int, before.push(c)) == done.push(cur@));
                } else {
                    assert(cur@ == seq![c]);
                }
            }
        }
    }
    assert(cs@.take(cs.len() as int) == cs@);
    if cur.len() > 0 {
        let ghost w = cur@;
        if cur[0] != '%' {
            if kept > 0 {
                push_char(&mut out, ' ');
            }
            for j in 0..cur.len()
                invariant
                    kept > 0 ==> out@ == join_spaced(without_field_codes(done)) + seq![' '] + cur@.take(j as int),
                    kept == 0 ==> out@ == cur@.take(j as int),
            {
                push_char(&mut out, cur[j]);
                assert(cur@.take(j + 1) == cur@.take(j as int).push(cur@[j as int]));
            }
            assert(cur@.take(cur.len() as int) == cur@);
        }
        proof {
            lemma_codes_push(done, w);
            lemma_join_push(without_field_codes(done), w);
            done = done.push(w);
        }
    }
    out
}

// ── Exec-line tokens ─────────────────────────────────────────────────────────

/// The state after reading `s` left to right: finished arguments, the argument
/// being read, and whether a double quote is open. A double quote toggles the
/// quoted state and is dropped; a space outside quotes ends the current
/// argument; every other character belongs to the current argument.
pub open spec fn scan_exec(s: Seq<char>) -> (Seq<Seq<char>>, Seq<char>, bool)
    decreases s.len(),
{
    if s.len() == 0 {
        (seq![], seq![], false)
    } else {
        let st = scan_exec(s.drop_last());
        let c = s.last();
        if c == '"' {
            (st.0, st.1, !st.2)
        } else if c == ' ' && !st.2 {
            if st.1.len() > 0 {
                (st.0.push(st.1), seq![], st.2)
            } else {
                st
            }
        } else {
            (st.0, st.1.push(c), st.2)
        }
    }
}

/// The arguments of an exec line: the finished arguments of the scan, and the
/// one still open at the end when it is not empty.
pub open spec fn exec_args(s: Seq<char>) -> Seq<Seq<char>> {
    let st = scan_exec(s);
    if st.1.len() > 0 {
        st.0.push(st.1)
    } else {
        st.0
    }
}

/// Splits an exec line into arguments at spaces, keeping spaces inside double
/// quotes and dropping the quote characters.
pub fn parse_exec(exec: &str) -> (r: Vec<String>)
    ensures
        views(r@) == exec_args(exec@),
{
    let cs = chars_of(exec);
    let mut parts: Vec<String> = Vec::new();
    let mut current = String::new();
    let mut in_quotes = false;
    for i in 0..cs.len()
        invariant
            cs@ == exec@,
            scan_exec(cs@.take(i as int)) == (views(parts@), current@, in_quotes),
    {
        let c = cs[i];
        proof {
            lemma_words_step(cs@, i as int);
        }
        let ghost before = views(parts@);
        if c == '"' {
            in_quotes = !in_quotes;
        } else if c == ' ' && !in_quotes {
            if !current.as_str().is_empty() {
                let ghost cv = current@;
                parts.push(current);
                assert(views(parts@) == before.push(cv));
                current = String::new();
            }
        } else {
            push_char(&mut current, c);
        }
    }
    assert(cs@.take(cs.len() as int) == cs@);
    if !current.as_str().is_empty() {
        let ghost before = views(parts@);
        let ghost cv = current@;
        parts.push(current);
        assert(views(parts@) == before.push(cv));
    }
    parts
}

// ── The launch arguments of a cleaned exec line ─────────────────────────────

/// Every word is non-empty and holds no white space and no double quote.
pub open spec fn plain_words(ws: Seq<Seq<char>>) -> bool {
    forall|i: int| 0 <= i < ws.len() ==> (#[trigger] ws[i]).len() > 0 && forall|j: int|
        0 <= j < ws[i].len() ==> !is_white(ws[i][j]) && ws[i][j] != '"'
}

proof fn lemma_words_plain(s: Seq<char>)
    requires
        forall|i: int| 0 <= i < s.len() ==> s[i] != '"',
    ensures
        plain_words(words(s)),
    decreases s.len(),
{
    if s.len() > 0 {
        lemma_words_plain(s.drop_last());
        let w = words(s.drop_last());
        let c = s.last();
        if !is_white(c) && s.len() >= 2 && !is_white(s[s.len() - 2]) {
            assert(w.len() > 0) by {
                lemma_words_nonempty(s.drop_last());
            }
            let u = w.update(w.len() - 1, w.last().push(c));
            assert forall|i: int| 0 <= i < u.len() implies (#[trigger] u[i]).len() > 0 && forall|j: int|
                0 <= j < u[i].len() ==> !is_white(u[i][j]) && u[i][j] != '"' by {
                if i == w.len() - 1 {
                    assert(u[i] == w[i].push(c));
                    assert forall|j: int| 0 <= j < u[i].len() implies !is_white(u[i][j]) && u[i][j] != '"' by {
                        if j < w[i].len() {
                            assert(u[i][j] == w[i][j]);
                        }
                    }
                } else {
                    assert(u[i] == w[i]);
                }
            }
        }
    }
}

proof fn lemma_words_nonempty(s: Seq<char>)
    requires
        s.len() > 0,
        !is_white(s.last()),
    ensures
        words(s).len() > 0,
    decreases s.len(),
{
    if s.len() >= 2 && !is_white(s[s.len() - 2]) {
        assert(s.drop_last().last() == s[s.len() - 2]);
        lemma_words_nonempty(s.drop_last());
    }
}

proof fn lemma_codes_plain(ws: Seq<Seq<char>>)
    requires
        plain_words(ws),
    ensures
        plain_words(without_field_codes(ws)),
    decreases ws.len(),
{
    if ws.len() > 0 {
        assert(plain_words(ws.drop_last())) by {
            assert forall|i: int| 0 <= i < ws.drop_last().len() implies #[trigger] ws.drop_last()[i] == ws[i] by {}
        }
        lemma_codes_plain(ws.drop_last());
        let r = without_field_codes(ws.drop_last());
        let w = ws.last();
        if !(w.len() > 0 && w[0] == '%') {
            assert forall|i: int| 0 <= i < r.push(w).len() implies (#[trigger] r.push(w)[i]).len() > 0 && forall|j: int|
                0 <= j < r.push(w)[i].len() ==> !is_white(r.push(w)[i][j]) && r.push(w)[i][j] != '"' by {
                if i == r.len() {
                    assert(r.push(w)[i] == ws[ws.len() - 1]);
                } else {
                    assert(r.push(w)[i] == r[i]);
                }
            }
        }
    }
}

proof fn lemma_scan_word(a: Seq<char>, w: Seq<char>)
    requires
        !scan_exec(a).2,
        forall|j: int| 0 <= j < w.len() ==> w[j] != ' ' && w[j] != '"',
    ensures
        scan_exec(a + w) == (scan_exec(a).0, scan_exec(a).1 + w, false),
    decreases w.len(),
{
    if w.len() == 0 {
        assert(a + w == a);
        assert(scan_exec(a).1 + w == scan_exec(a).1);
    } else {
        lemma_scan_word(a, w.drop_last());
        assert((a + w).drop_last() == a + w.drop_last());
        assert((a + w).last() == w.last());
        assert((scan_exec(a).1 + w.drop_last()).push(w.last()) == scan_exec(a).1 + w);
    }
}

proof fn lemma_scan_join(ws: Seq<Seq<char>>)
    requires
        ws.len() > 0,
        plain_words(ws),
    ensures
        scan_exec(join_spaced(ws)) == (ws.drop_last(), ws.last(), false),
    decreases ws.len(),
{
    let w = ws.last();
    assert(ws[ws.len() - 1] == w);
    assert forall|j: int| 0 <= j < w.len() implies w[j] != ' ' && w[j] != '"' by {
        assert(!is_white(w[j]));
    }
    if ws.len() == 1 {
        lemma_scan_word(Seq::<char>::empty(), w);
        assert(Seq::<char>::empty() + w == w);
        assert(join_spaced(ws) == w);
        assert(ws.drop_last() == Seq::<Seq<char>>::empty());
    } else {
        let d = ws.drop_last();
        assert(plain_words(d)) by {
            assert forall|i: int| 0 <= i < d.len() implies #[trigger] d[i] == ws[i] by {}
        }
        lemma_scan_join(d);
        let a = join_spaced(d) + seq![' '];
        assert(a.drop_last() == join_spaced(d) && a.last() == ' ');
        assert(d[d.len() - 1].len() > 0);
        assert(d.drop_last().push(d.last()) == d);
        assert(scan_exec(a) == (d, Seq::<char>::empty(), false));
        lemma_scan_word(a, w);
        assert(Seq::<char>::empty() + w == w);
        assert(join_spaced(ws) == a + w);
    }
}

/// Without double quotes in an exec line, launching its cleaned form runs its
/// words, field codes dropped: the arguments are exactly those words.
pub proof fn launch_args_are_exec_words(s: Seq<char>)
    requires
        forall|i: int| 0 <= i < s.len() ==> s[i] != '"',
    ensures
        exec_args(cleaned_exec(s)) == without_field_codes(words(s)),
{
    lemma_words_plain(s);
    lemma_codes_plain(words(s));
    let ws = without_field_codes(words(s));
    if ws.len() > 0 {
        lemma_scan_join(ws);
        assert(ws[ws.len() - 1].len() > 0);
        assert(ws.drop_last().push(ws.last()) == ws);
    }
}

// ── Substrings ───────────────────────────────────────────────────────────────

/// `p` occurs in `s` at position `i`.
pub open spec fn occurs_at(s: Seq<char>, p: Seq<char>, i: int) -> bool {
    0 <= i && i + p.len() <= s.len() && s.subrange(i, i + p.len()) == p
}

/// `p` occurs somewhere in `s` (the empty string occurs in every string).
pub open spec fn has_infix(s: Seq<char>, p: Seq<char>) -> bool {
    exists|i: int| #[trigger] occurs_at(s, p, i)
}

fn matches_at(s: &Vec<char>, p: &Vec<char>, i: usize) -> (r: bool)
    requires
        i + p.len() <= s.len(),
    ensures
        r == occurs_at(s@, p@, i as int),
{
    for j in 0..p.len()
        invariant
            i + p.len() <= s.len(),
            forall|k: int| 0 <= k < j ==> s@[i + k] == p@[k],
    {
        if s[i + j] != p[j] {
            assert(s@.subrange(i as int, i + p.len())[j as int] != p@[j as int]);
            return false;
        }
    }
    assert(s@.subrange(i as int, i + p.len()) == p@);
    true
}

/// Whether `pattern` occurs in `s`, as `str::contains` with a string pattern.
pub fn contains_str(s: &str, pattern: &str) -> (r: bool)
    ensures
        r == has_infix(s@, pattern@),
{
    let sc = chars_of(s);
    let pc = chars_of(pattern);
    if pc.len() > sc.len() {
        assert forall|i: int| !occurs_at(s@, pattern@, i) by {}
        return false;
    }
    let last = sc.len() - pc.len();
    for i in 0..last
        invariant
            sc@ == s@,
            pc@ == pattern@,
            last + pc.len() == sc.len(),
            forall|k: int| 0 <= k < i ==> !occurs_at(s@, pattern@, k),
    {
        if matches_at(&sc, &pc, i) {
            return true;
        }
    }
    if matches_at(&sc, &pc, last) {
        return true;
    }
    assert forall|i: int| !occurs_at(s@, pattern@, i) by {
        if 0 <= i && i + pattern@.len() <= s@.len() {
            assert(i <= last);
        }
    }
    false
}

} // verus!
