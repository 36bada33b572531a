//! Listings of the library panes: which entries of a directory show, and
//! in which order. Hidden entries (name starting with a dot) never show;
//! the folder pane lists subdirectories, the file pane lists audio files
//! (by extension, case-insensitive). Both are sorted by lowercase name,
//! entries with the same lowercase name keeping their listing order.

use vstd::prelude::*;
use vstd::string::StrSliceExecFns;

use crate::engine::stream::{lowercase, to_lowercase};

verus! {

/// `a` comes strictly before `b` in character order, comparing from
/// position `i` on (a proper prefix comes first).
pub open spec fn text_less_from(a: Seq<char>, b: Seq<char>, i: int) -> bool
    decreases a.len() - i,
{
    if i >= b.len() || i < 0 {
        false
    } else if i >= a.len() {
        true
    } else if a[i] != b[i] {
        (a[i] as int) < (b[i] as int)
    } else {
        text_less_from(a, b, i + 1)
    }
}

/// Lexicographic character order: `a` comes strictly before `b`.
pub open spec fn text_less(a: Seq<char>, b: Seq<char>) -> bool {
    text_less_from(a, b, 0)
}

proof fn lemma_text_less_irreflexive(a: Seq<char>, i: int)
    requires
        0 <= i,
    ensures
        !text_less_from(a, a, i),
    decreases a.len() - i,
{
    if i < a.len() {
        lemma_text_less_irreflexive(a, i + 1);
    }
}

proof fn lemma_text_less_total(a: Seq<char>, b: Seq<char>, i: int)
    requires
        0 <= i <= a.len(),
        i <= b.len(),
        a.subrange(i, a.len() as int) != b.subrange(i, b.len() as int),
    ensures
        text_less_from(a, b, i) != text_less_from(b, a, i),
    decreases a.len() - i,
{
    if i < a.len() && i < b.len() && a[i] == b[i] {
        if a.subrange(i + 1, a.len() as int) == b.subrange(i + 1, b.len() as int) {
            assert(a.subrange(i, a.len() as int) =~= seq![a[i]] + a.subrange(i + 1, a.len() as int));
            assert(b.subrange(i, b.len() as int) =~= seq![b[i]] + b.subrange(i + 1, b.len() as int));
        }
        lemma_text_less_total(a, b, i + 1);
    } else if i < a.len() && i < b.len() {
        assert((a[i] as int) != (b[i] as int));
    } else if i >= a.len() && i >= b.len() {
        assert(a.subrange(i, a.len() as int) =~= b.subrange(i, b.len() as int));
    }
}

proof fn lemma_text_less_transitive(a: Seq<char>, b: Seq<char>, c: Seq<char>, i: int)
    requires
        0 <= i,
        text_less_from(a, b, i),
        text_less_from(b, c, i),
    ensures
        text_less_from(a, c, i),
    decreases a.len() - i,
{
    if i < a.len() && i < b.len() && i < c.len() && a[i] == b[i] && b[i] == c[i] {
        lemma_text_less_transitive(a, b, c, i + 1);
    }
}

/// The character order is a strict total order.
pub proof fn lemma_text_order(a: Seq<char>, b: Seq<char>, c: Seq<char>)
    ensures
        !text_less(a, a),
        a != b ==> text_less(a, b) != text_less(b, a),
        text_less(a, b) && text_less(b, c) ==> text_less(a, c),
{
    lemma_text_less_irreflexive(a, 0);
    if a != b {
        assert(a.subrange(0, a.len() as int) =~= a);
        assert(b.subrange(0, b.len() as int) =~= b);
        lemma_text_less_total(a, b, 0);
    }
    if text_less(a, b) && text_less(b, c) {
        lemma_text_less_transitive(a, b, c, 0);
    }
}

/// Whether `a` comes strictly before `b` in character order.
pub fn text_before(a: &str, b: &str) -> (r: bool)
    ensures
        r == text_less(a@, b@),
{
    let la = a.unicode_len();
    let lb = b.unicode_len();
    let mut i: usize = 0;
    while i < la && i < lb && a.get_char(i) == b.get_char(i)
        invariant
            la == a@.len(),
            lb == b@.len(),
            i <= la,
            i <= lb,
            text_less_from(a@, b@, 0) == text_less_from(a@, b@, i as int),
        decreases la - i,
    {
        i += 1;
    }
    if i >= lb {
        false
    } else if i >= la {
        true
    } else {
        (a.get_char(i) as u32) < (b.get_char(i) as u32)
    }
}

/// Listing position `i` comes strictly before `j`: by key, then, between
/// equal keys, by listing order.
pub open spec fn entry_before(keys: Seq<Seq<char>>, i: int, j: int) -> bool {
    text_less(keys[i], keys[j]) || (keys[i] == keys[j] && i < j)
}

proof fn lemma_entry_order(keys: Seq<Seq<char>>, i: int, j: int, k: int)
    ensures
        !entry_before(keys, i, i),
        i != j ==> entry_before(keys, i, j) != entry_before(keys, j, i),
        entry_before(keys, i, j) && entry_before(keys, j, k) ==> entry_before(keys, i, k),
{
    lemma_text_order(keys[i], keys[j], keys[k]);
    lemma_text_order(keys[j], keys[i], keys[k]);
    lemma_text_order(keys[i], keys[k], keys[j]);
}

/// `rows` is strictly increasing in entry order.
pub open spec fn in_entry_order(keys: Seq<Seq<char>>, rows: Seq<usize>) -> bool {
    forall|a: int, b: int| 0 <= a < b < rows.len() ==> entry_before(keys, #[trigger] rows[a] as int, #[trigger] rows[b] as int)
}

/// Keys of a list of strings, as sequences.
pub open spec fn key_seq(keys: Seq<String>) -> Seq<Seq<char>> {
    Seq::new(keys.len(), |i: int| keys[i]@)
}

/// `candidates` (distinct positions into `keys`) sorted in entry order:
/// by key, ties in listing order.
fn sort_rows(keys: &[String], candidates: &[usize]) -> (r: Vec<usize>)
    requires
        forall|a: int| 0 <= a < candidates@.len() ==> (#[trigger] candidates@[a]) < keys@.len(),
        candidates@.no_duplicates(),
    ensures
        r@.len() == candidates@.len(),
        forall|x: usize| r@.contains(x) <==> candidates@.contains(x),
        in_entry_order(key_seq(keys@), r@),
{
    let ghost ks = key_seq(keys@);
    let n = candidates.len();
    let mut out: Vec<usize> = Vec::new();
    let mut i: usize = 0;
    while i < n
        invariant
            n == candidates@.len(),
            ks == key_seq(keys@),
            forall|a: int| 0 <= a < candidates@.len() ==> (#[trigger] candidates@[a]) < keys@.len(),
            candidates@.no_duplicates(),
            i <= n,
            out@.len() == i,
            forall|a: int| 0 <= a < out@.len() ==> (#[trigger] out@[a]) < keys@.len(),
            forall|x: usize| out@.contains(x) <==> candidates@.subrange(0, i as int).contains(x),
            in_entry_order(ks, out@),
        decreases n - i,
    {
        let c = candidates[i];
        let m = out.len();
        let mut p: usize = 0;
        while p < m && row_before(keys, out[p], c)
            invariant
                m == out@.len(),
                p <= m,
                c < keys@.len(),
                ks == key_seq(keys@),
                forall|a: int| 0 <= a < out@.len() ==> (#[trigger] out@[a]) < keys@.len(),
                forall|q: int| 0 <= q < p ==> entry_before(ks, #[trigger] out@[q] as int, c as int),
            decreases m - p,
        {
            p += 1;
        }
        proof {
            assert(!out@.contains(c)) by {
                if out@.contains(c) {
                    let w = choose|w: int| 0 <= w < i && #[trigger] candidates@[w] == c;
                    assert(candidates@.subrange(0, i as int).contains(c));
                    let w = choose|w: int| 0 <= w < i && #[trigger] candidates@.subrange(0, i as int)[w] == c;
                    assert(candidates@[w] == candidates@[i as int]);
                }
            }
            if p < m {
                assert(out@[p as int] != c);
                lemma_entry_order(ks, out@[p as int] as int, c as int, c as int);
                assert(entry_before(ks, c as int, out@[p as int] as int));
            }
        }
        let ghost prev = out@;
        out.insert(p, c);
        proof {
            assert forall|a: int| 0 <= a < out@.len() implies (#[trigger] out@[a]) < keys@.len() by {
                if a < p {
                    assert(out@[a] == prev[a]);
                } else if a > p {
                    assert(out@[a] == prev[a - 1]);
                }
            }
            assert forall|a: int, b: int| 0 <= a < b < out@.len() implies entry_before(
                ks,
                #[trigger] out@[a] as int,
                #[trigger] out@[b] as int,
            ) by {
                if b < p {
                    assert(out@[a] == prev[a] && out@[b] == prev[b]);
                } else if b == p {
                    assert(out@[a] == prev[a]);
                } else if a == p {
                    assert(out@[b] == prev[b - 1]);
                    if b - 1 > p {
                        assert(entry_before(ks, prev[p as int] as int, prev[b - 1] as int));
                        lemma_entry_order(ks, c as int, prev[p as int] as int, prev[b - 1] as int);
                    }
                } else if a < p {
                    assert(out@[a] == prev[a] && out@[b] == prev[b - 1]);
                } else {
                    assert(out@[a] == prev[a - 1] && out@[b] == prev[b - 1]);
                }
            }
            assert forall|x: usize| out@.contains(x) <==> candidates@.subrange(0, i + 1).contains(x) by {
                if out@.contains(x) {
                    let w = choose|w: int| 0 <= w < out@.len() && #[trigger] out@[w] == x;
                    if w != p {
                        let v = if w < p { w } else { w - 1 };
                        assert(prev[v] == x);
                        assert(prev.contains(x));
                        assert(candidates@.subrange(0, i as int).contains(x));
                        let u = choose|u: int| 0 <= u < i && #[trigger] candidates@.subrange(0, i as int)[u] == x;
                        assert(candidates@.subrange(0, i + 1)[u] == x);
                    } else {
                        assert(candidates@.subrange(0, i + 1)[i as int] == x);
                    }
                }
                if candidates@.subrange(0, i + 1).contains(x) {
                    let u = choose|u: int| 0 <= u < i + 1 && #[trigger] candidates@.subrange(0, i + 1)[u] == x;
                    if u < i {
                        assert(candidates@.subrange(0, i as int)[u] == x);
                        assert(prev.contains(x));
                        let v = choose|v: int| 0 <= v < prev.len() && #[trigger] prev[v] == x;
                        if v < p {
                            assert(out@[v] == x);
                        } else {
                            assert(out@[v + 1] == x);
                        }
                    } else {
                        assert(out@[p as int] == x);
                    }
                }
            }
        }
        i += 1;
    }
    assert(candidates@.subrange(0, n as int) =~= candidates@);
    out
}

/// Whether listing position `i` comes strictly before `j` in entry order.
fn row_before(keys: &[String], i: usize, j: usize) -> (r: bool)
    requires
        i < keys@.len(),
        j < keys@.len(),
    ensures
        r == entry_before(key_seq(keys@), i as int, j as int),
{
    let a = keys[i].as_str();
    let b = keys[j].as_str();
    if text_before(a, b) {
        true
    } else {
        keys[i] == keys[j] && i < j
    }
}


/// One entry of a directory listing, as read from the file system.
#[derive(Debug, Clone)]
pub struct ListedEntry {
    pub name: String,
    pub is_dir: bool,
}

/// Hidden entry: its name starts with a dot.
pub open spec fn hidden(name: Seq<char>) -> bool {
    name.len() > 0 && name[0] == '.'
}

/// Position of the last dot below `k`, or -1.
pub open spec fn last_dot(name: Seq<char>, k: int) -> int
    decreases k,
{
    if k <= 0 {
        -1
    } else if name[k - 1] == '.' {
        k - 1
    } else {
        last_dot(name, k - 1)
    }
}

/// Extension of a file name: what follows its last dot, unless that dot
/// is the first character or there is none.
pub open spec fn extension(name: Seq<char>) -> Option<Seq<char>> {
    let d = last_dot(name, name.len() as int);
    if d <= 0 {
        None
    } else {
        Some(name.subrange(d + 1, name.len() as int))
    }
}

/// Extensions of the audio files the library lists, in lowercase.
pub open spec fn audio_extensions() -> Seq<Seq<char>> {
    seq![
        seq!['m', 'p', '3'],
        seq!['f', 'l', 'a', 'c'],
        seq!['w', 'a', 'v'],
        seq!['o', 'g', 'g'],
        seq!['m', '4', 'a'],
        seq!['a', 'a', 'c'],
    ]
}

/// An audio file name: its extension, in lowercase, is an audio one.
pub open spec fn audio_name(name: Seq<char>) -> bool {
    match extension(name) {
        Some(e) => audio_extensions().contains(lowercase(e)),
        None => false,
    }
}

/// The entry shows in the folder pane (`folders`) or in the file pane.
pub open spec fn shows(e: ListedEntry, folders: bool) -> bool {
    &&& !hidden(e.name@)
    &&& if folders {
        e.is_dir
    } else {
        !e.is_dir && audio_name(e.name@)
    }
}

/// Sort keys of a listing: lowercase names.
pub open spec fn name_keys(entries: Seq<ListedEntry>) -> Seq<Seq<char>> {
    Seq::new(entries.len(), |i: int| lowercase(entries[i].name@))
}

/// Rows of a pane: exactly the positions of the entries it shows, in
/// entry order (lowercase name, then listing order).
pub open spec fn pane_rows(entries: Seq<ListedEntry>, folders: bool, rows: Seq<usize>) -> bool {
    &&& forall|a: int| 0 <= a < rows.len() ==> (#[trigger] rows[a]) < entries.len() && shows(entries[rows[a] as int], folders)
    &&& forall|i: int| 0 <= i < entries.len() && shows(#[trigger] entries[i], folders) ==> rows.contains(i as usize)
    &&& in_entry_order(name_keys(entries), rows)
}

/// Whether the name is hidden (starts with a dot).
pub fn is_hidden(name: &str) -> (r: bool)
    ensures
        r == hidden(name@),
{
    name.unicode_len() > 0 && name.get_char(0) == '.'
}

/// Extension of a file name (see [`extension`]).
pub fn file_extension(name: &str) -> (r: Option<&str>)
    ensures
        match (r, extension(name@)) {
            (Some(a), Some(b)) => a@ == b,
            (None, None) => true,
            _ => false,
        },
{
    let n = name.unicode_len();
    let mut k: usize = n;
    while k > 0 && name.get_char(k - 1) != '.'
        invariant
            n == name@.len(),
            k <= n,
            last_dot(name@, n as int) == last_dot(name@, k as int),
        decreases k,
    {
        k -= 1;
    }
    if k <= 1 {
        None
    } else {
        Some(name.substring_char(k, n))
    }
}

/// Whether the extension, in lowercase, is an audio one.
fn is_audio_extension(ext: &str) -> (r: bool)
    ensures
        r == audio_extensions().contains(lowercase(ext@)),
{
    let lower = to_lowercase(ext);
    proof {
        reveal_strlit("mp3");
        reveal_strlit("flac");
        reveal_strlit("wav");
        reveal_strlit("ogg");
        reveal_strlit("m4a");
        reveal_strlit("aac");
        let x = lower@;
        let e = audio_extensions();
        assert(e.contains(x) <==> (x == e[0] || x == e[1] || x == e[2] || x == e[3] || x == e[4] || x == e[5]));
        assert(e[0] == "mp3"@ && e[1] == "flac"@ && e[2] == "wav"@);
        assert(e[3] == "ogg"@ && e[4] == "m4a"@ && e[5] == "aac"@);
    }
    lower == "mp3".to_owned() || lower == "flac".to_owned() || lower == "wav".to_owned() || lower
        == "ogg".to_owned() || lower == "m4a".to_owned() || lower == "aac".to_owned()
}

/// Whether the entry shows in the folder pane (`folders`) or in the file
/// pane.
fn entry_shows(entry: &ListedEntry, folders: bool) -> (r: bool)
    ensures
        r == shows(*entry, folders),
{
    if is_hidden(entry.name.as_str()) {
        return false;
    }
    if folders {
        return entry.is_dir;
    }
    if entry.is_dir {
        return false;
    }
    match file_extension(entry.name.as_str()) {
        Some(ext) => is_audio_extension(ext),
        None => false,
    }
}

/// Rows of the folder pane (`folders`) or of the file pane, as positions
/// into `entries` (see [`pane_rows`]).
fn rows_of(entries: &[ListedEntry], folders: bool) -> (r: Vec<usize>)
    ensures
        pane_rows(entries@, folders, r@),
{
    let n = entries.len();
    let mut keys: Vec<String> = Vec::new();
    let mut candidates: Vec<usize> = Vec::new();
    let mut i: usize = 0;
    while i < n
        invariant
            n == entries@.len(),
            i <= n,
            keys@.len() == i,
            forall|k: int| 0 <= k < i ==> (#[trigger] keys@[k])@ == lowercase(entries@[k].name@),
            forall|a: int| 0 <= a < candidates@.len() ==> (#[trigger] candidates@[a]) < i && shows(
                entries@[candidates@[a] as int],
                folders,
            ),
            forall|a: int, b: int| 0 <= a < b < candidates@.len() ==> (#[trigger] candidates@[a]) < (#[trigger] candidates@[b]),
            forall|k: int| 0 <= k < i && shows(#[trigger] entries@[k], folders) ==> candidates@.contains(k as usize),
        decreases n - i,
    {
        keys.push(to_lowercase(entries[i].name.as_str()));
        let ghost before = candidates@;
        let show = entry_shows(&entries[i], folders);
        if show {
            candidates.push(i);
        }
        proof {
            assert forall|k: int| 0 <= k < i + 1 && shows(#[trigger] entries@[k], folders) implies candidates@.contains(
                k as usize,
            ) by {
                if k == i {
                    assert(candidates@[candidates@.len() - 1] == i);
                } else {
                    assert(before.contains(k as usize));
                    let w = choose|w: int| 0 <= w < before.len() && #[trigger] before[w] == k as usize;
                    assert(candidates@[w] == before[w]);
                }
            }
        }
        i += 1;
    }
    assert(key_seq(keys@) =~= name_keys(entries@));
    assert(candidates@.no_duplicates()) by {
        assert forall|a: int, b: int| 0 <= a < candidates@.len() && 0 <= b < candidates@.len() && a != b implies candidates@[a]
            != candidates@[b] by {
            if a < b {
                assert(candidates@[a] < candidates@[b]);
            } else {
                assert(candidates@[b] < candidates@[a]);
            }
        }
    }
    let rows = sort_rows(keys.as_slice(), candidates.as_slice());
    proof {
        assert forall|a: int| 0 <= a < rows@.len() implies (#[trigger] rows@[a]) < entries@.len() && shows(
            entries@[rows@[a] as int],
            folders,
        ) by {
            assert(rows@.contains(rows@[a]));
            assert(candidates@.contains(rows@[a]));
        }
    }
    rows
}

/// Subfolder rows of the folder pane: the visible subdirectories, sorted
/// by lowercase name (see [`pane_rows`]).
pub fn folder_rows(entries: &[ListedEntry]) -> (r: Vec<usize>)
    ensures
        pane_rows(entries@, true, r@),
{
    rows_of(entries, true)
}

/// Rows of the file pane: the visible audio files, sorted by lowercase
/// name (see [`pane_rows`]).
pub fn file_rows(entries: &[ListedEntry]) -> (r: Vec<usize>)
    ensures
        pane_rows(entries@, false, r@),
{
    rows_of(entries, false)
}


proof fn lemma_sorted_unique(keys: Seq<Seq<char>>, r1: Seq<usize>, r2: Seq<usize>)
    requires
        in_entry_order(keys, r1),
        in_entry_order(keys, r2),
        forall|x: usize| r1.contains(x) <==> r2.contains(x),
    ensures
        r1 == r2,
    decreases r1.len(),
{
    if r1.len() == 0 {
        if r2.len() > 0 {
            assert(r2.contains(r2[0]));
        }
        assert(r1 =~= r2);
    } else if r2.len() == 0 {
        assert(r1.contains(r1[0]));
    } else {
        let a = r1[0];
        let b = r2[0];
        if a != b {
            assert(r1.contains(b)) by {
                assert(r2.contains(b));
            }
            assert(r2.contains(a)) by {
                assert(r1.contains(a));
            }
            let j = choose|j: int| 0 <= j < r1.len() && #[trigger] r1[j] == b;
            let i = choose|i: int| 0 <= i < r2.len() && #[trigger] r2[i] == a;
            assert(j > 0 && i > 0);
            assert(entry_before(keys, r1[0] as int, r1[j] as int));
            assert(entry_before(keys, r2[0] as int, r2[i] as int));
            lemma_entry_order(keys, a as int, b as int, a as int);
        }
        let t1 = r1.drop_first();
        let t2 = r2.drop_first();
        assert forall|x: usize| t1.contains(x) <==> t2.contains(x) by {
            if t1.contains(x) {
                let k = choose|k: int| 0 <= k < t1.len() && #[trigger] t1[k] == x;
                assert(r1[k + 1] == x);
                assert(entry_before(keys, r1[0] as int, r1[k + 1] as int));
                lemma_entry_order(keys, x as int, x as int, x as int);
                assert(x != a);
                assert(r1.contains(x));
                assert(r2.contains(x));
                let m = choose|m: int| 0 <= m < r2.len() && #[trigger] r2[m] == x;
                assert(m != 0);
                assert(t2[m - 1] == x);
            }
            if t2.contains(x) {
                let k = choose|k: int| 0 <= k < t2.len() && #[trigger] t2[k] == x;
                assert(r2[k + 1] == x);
                assert(entry_before(keys, r2[0] as int, r2[k + 1] as int));
                lemma_entry_order(keys, x as int, x as int, x as int);
                assert(x != b);
                assert(r2.contains(x));
                assert(r1.contains(x));
                let m = choose|m: int| 0 <= m < r1.len() && #[trigger] r1[m] == x;
                assert(m != 0);
                assert(t1[m - 1] == x);
            }
        }
        assert(in_entry_order(keys, t1)) by {
            assert forall|p: int, q: int| 0 <= p < q < t1.len() implies entry_before(
                keys,
                #[trigger] t1[p] as int,
                #[trigger] t1[q] as int,
            ) by {
                assert(t1[p] == r1[p + 1] && t1[q] == r1[q + 1]);
            }
        }
        assert(in_entry_order(keys, t2)) by {
            assert forall|p: int, q: int| 0 <= p < q < t2.len() implies entry_before(
                keys,
                #[trigger] t2[p] as int,
                #[trigger] t2[q] as int,
            ) by {
                assert(t2[p] == r2[p + 1] && t2[q] == r2[q + 1]);
            }
        }
        lemma_sorted_unique(keys, t1, t2);
        assert(r1 =~= seq![a] + t1);
        assert(r2 =~= seq![b] + t2);
    }
}

/// A pane's rows are determined by the listing: there is exactly one way
/// to show the entries of a pane, so two listings of the same entries
/// show the same rows in the same order.
pub proof fn lemma_pane_rows_determined(entries: Seq<ListedEntry>, folders: bool, r1: Seq<usize>, r2: Seq<usize>)
    requires
        pane_rows(entries, folders, r1),
        pane_rows(entries, folders, r2),
    ensures
        r1 == r2,
{
    assert forall|x: usize| r1.contains(x) <==> r2.contains(x) by {
        if r1.contains(x) {
            let k = choose|k: int| 0 <= k < r1.len() && #[trigger] r1[k] == x;
            assert(x < entries.len() && shows(entries[x as int], folders));
            assert(r2.contains((x as int) as usize));
        }
        if r2.contains(x) {
            let k = choose|k: int| 0 <= k < r2.len() && #[trigger] r2[k] == x;
            assert(x < entries.len() && shows(entries[x as int], folders));
            assert(r1.contains((x as int) as usize));
        }
    }
    lemma_sorted_unique(name_keys(entries), r1, r2);
}

} // verus!
