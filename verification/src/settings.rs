//! Persistent application settings: preferences and the recent-files list.
//!
//! The window size is carried as an opaque payload `W` (the front end keeps
//! it in logical pixels); the library stores it and never reads it.
use vstd::prelude::*;
use crate::paths::{all_ascii, ascii_lower, file_name_of, lowercase, lowercase_of, path_file_name};
use crate::text::{chars_of, contains_chars, contains_text};

verus! {

/// Most entries the recent-files list keeps.
pub const MAX_RECENT: usize = 50;

/// Application settings.
pub struct Settings<W> {
    pub interface_language: String,
    pub theme: String,
    pub restore_session: bool,
    pub author_name: String,
    /// Most recent first, without duplicates.
    pub recent_files: Vec<String>,
    /// Last window size; the front end's own representation.
    pub window: W,
}

/// The texts of a list of strings.
pub open spec fn texts(v: Seq<String>) -> Seq<Seq<char>> {
    v.map_values(|s: String| s@)
}

/// `list` with every occurrence of `p` removed, order kept.
pub open spec fn without(list: Seq<Seq<char>>, p: Seq<char>) -> Seq<Seq<char>>
    decreases list.len(),
{
    if list.len() == 0 {
        list
    } else {
        let rest = without(list.drop_last(), p);
        if list.last() == p {
            rest
        } else {
            rest.push(list.last())
        }
    }
}

/// The recent list after `p` is moved to the front: duplicates of `p`
/// removed, `p` first, at most [`MAX_RECENT`] entries.
pub open spec fn pushed_recent(list: Seq<Seq<char>>, p: Seq<char>) -> Seq<Seq<char>> {
    let l = seq![p] + without(list, p);
    if l.len() > MAX_RECENT { l.take(MAX_RECENT as int) } else { l }
}

/// One row of the recent-files list as shown: file name and full path.
pub struct RecentEntry {
    pub name: String,
    pub path: String,
}

/// Whether the recent path `p` passes the lower-cased filter `needle`.
pub open spec fn recent_matches(p: Seq<char>, needle: Seq<char>) -> bool {
    needle.len() == 0 || contains_text(lowercase(p), needle)
}

/// The name shown for the recent path `p`: its file name, or `(unknown)`.
pub open spec fn recent_name(p: Seq<char>) -> Seq<char> {
    match path_file_name(p) {
        Some(n) => n,
        None => "(unknown)"@,
    }
}

/// The rows shown for `list` under the lower-cased filter `needle`, as
/// (name, path) pairs, in list order.
pub open spec fn recent_rows(list: Seq<Seq<char>>, needle: Seq<char>) -> Seq<(Seq<char>, Seq<char>)>
    decreases list.len(),
{
    if list.len() == 0 {
        seq![]
    } else {
        let rest = recent_rows(list.drop_last(), needle);
        if recent_matches(list.last(), needle) {
            rest.push((recent_name(list.last()), list.last()))
        } else {
            rest
        }
    }
}

/// The (name, path) pairs of a list of rows.
pub open spec fn row_texts(v: Seq<RecentEntry>) -> Seq<(Seq<char>, Seq<char>)> {
    v.map_values(|e: RecentEntry| (e.name@, e.path@))
}

/// Whether a list holds no entry twice.
pub open spec fn no_duplicates(list: Seq<Seq<char>>) -> bool {
    forall|i: int, j: int| 0 <= i < j < list.len() ==> list[i] != list[j]
}

/// `without` keeps exactly the entries other than `p`.
pub proof fn lemma_without_contains(list: Seq<Seq<char>>, p: Seq<char>, x: Seq<char>)
    ensures
        without(list, p).contains(x) == (list.contains(x) && x != p),
        without(list, p).len() <= list.len(),
    decreases list.len(),
{
    if list.len() > 0 {
        lemma_without_contains(list.drop_last(), p, x);
        let rest = without(list.drop_last(), p);
        if list.last() != p {
            assert(rest.push(list.last()).contains(x) == (rest.contains(x) || x == list.last())) by {
                if x == list.last() {
                    assert(rest.push(list.last())[rest.len() as int] == x);
                }
                if rest.contains(x) {
                    let k = choose|k: int| 0 <= k < rest.len() && rest[k] == x;
                    assert(rest.push(list.last())[k] == x);
                }
                if rest.push(list.last()).contains(x) && x != list.last() {
                    let k = choose|k: int| 0 <= k < rest.len() + 1 && rest.push(list.last())[k] == x;
                    assert(rest[k] == x);
                }
            }
        }
        assert(list.contains(x) == (list.drop_last().contains(x) || list.last() == x)) by {
            if list.contains(x) && list.last() != x {
                let k = choose|k: int| 0 <= k < list.len() && list[k] == x;
                assert(list.drop_last()[k] == x);
            }
            if list.drop_last().contains(x) {
                let k = choose|k: int| 0 <= k < list.len() - 1 && list.drop_last()[k] == x;
                assert(list[k] == x);
            }
            if list.last() == x {
                assert(list[list.len() - 1] == x);
            }
        }
    } else {
        assert(!list.contains(x));
    }
}

/// `without` keeps a list free of duplicates.
pub proof fn lemma_without_no_duplicates(list: Seq<Seq<char>>, p: Seq<char>)
    requires
        no_duplicates(list),
    ensures
        no_duplicates(without(list, p)),
    decreases list.len(),
{
    if list.len() > 0 {
        let init = list.drop_last();
        assert(no_duplicates(init)) by {
            assert forall|i: int, j: int| 0 <= i < j < init.len() implies init[i] != init[j] by {
                assert(init[i] == list[i] && init[j] == list[j]);
            }
        }
        lemma_without_no_duplicates(init, p);
        let rest = without(init, p);
        if list.last() != p {
            lemma_without_contains(init, p, list.last());
            assert(!init.contains(list.last())) by {
                if init.contains(list.last()) {
                    let k = choose|k: int| 0 <= k < init.len() && init[k] == list.last();
                    assert(list[k] == list[list.len() - 1]);
                }
            }
            let r = rest.push(list.last());
            assert forall|i: int, j: int| 0 <= i < j < r.len() implies r[i] != r[j] by {
                if j == rest.len() {
                    assert(r[i] == rest[i]);
                    assert(rest.contains(rest[i]));
                }
            }
        }
    }
}

impl<W> Settings<W> {
    /// Default preferences for a user named `author_name`, with no recent
    /// files and the given window size.
    pub fn new(author_name: String, window: W) -> (s: Self)
        ensures
            s.interface_language@ == "Auto-detect"@,
            s.theme@ == "Default"@,
            !s.restore_session,
            s.author_name@ == author_name@,
            s.recent_files@.len() == 0,
            s.window == window,
    {
        Settings {
            interface_language: String::from_str("Auto-detect"),
            theme: String::from_str("Default"),
            restore_session: false,
            author_name,
            recent_files: Vec::new(),
            window,
        }
    }

    /// Remove every occurrence of `path` from the recent list.
    pub fn remove_recent(&mut self, path: &str)
        ensures
            texts(final(self).recent_files@) == without(texts(old(self).recent_files@), path@),
            final(self).interface_language == old(self).interface_language,
            final(self).theme == old(self).theme,
            final(self).restore_session == old(self).restore_session,
            final(self).author_name == old(self).author_name,
            final(self).window == old(self).window,
    {
        let ghost old_list = texts(self.recent_files@);
        let mut kept: Vec<String> = Vec::new();
        let mut i: usize = 0;
        let n = self.recent_files.len();
        while i < n
            invariant
                n == self.recent_files@.len(),
                i <= n,
                old_list == texts(self.recent_files@),
                texts(kept@) == without(old_list.take(i as int), path@),
            decreases n - i,
        {
            let ghost before = kept@;
            let p: &str = self.recent_files[i].as_str();
            let keep = !str_eq(p, path);
            if keep {
                kept.push(self.recent_files[i].clone());
            }
            proof {
                assert(old_list.take(i + 1).drop_last() =~= old_list.take(i as int));
                assert(old_list.take(i + 1).last() == old_list[i as int]);
                if keep {
                    assert(texts(kept@) =~= texts(before).push(old_list[i as int]));
                } else {
                    assert(texts(kept@) =~= texts(before));
                }
            }
            i = i + 1;
        }
        assert(old_list.take(n as int) =~= old_list);
        self.recent_files = kept;
    }

    /// Move `path` to the front of the recent list: earlier entries of it are
    /// dropped and the list is cut to [`MAX_RECENT`] entries.
    pub fn push_recent(&mut self, path: &str)
        ensures
            texts(final(self).recent_files@) == pushed_recent(texts(old(self).recent_files@), path@),
            final(self).interface_language == old(self).interface_language,
            final(self).theme == old(self).theme,
            final(self).restore_session == old(self).restore_session,
            final(self).author_name == old(self).author_name,
            final(self).window == old(self).window,
    {
        let ghost old_list = texts(self.recent_files@);
        self.remove_recent(path);
        let ghost rest = texts(self.recent_files@);
        self.recent_files.insert(0, String::from_str(path));
        assert(texts(self.recent_files@) =~= seq![path@] + rest);
        if self.recent_files.len() > MAX_RECENT {
            self.recent_files.truncate(MAX_RECENT);
            assert(texts(self.recent_files@) =~= (seq![path@] + rest).take(MAX_RECENT as int));
        }
    }

    /// The recent files that match `filter` (case-insensitively, as a
    /// substring), in list order, each with its file name.
    pub fn recent_entries(&self, filter: &str) -> (r: Vec<RecentEntry>)
        ensures
            row_texts(r@) == recent_rows(texts(self.recent_files@), lowercase(filter@)),
            filter@.len() == 0 ==> row_texts(r@) == texts(self.recent_files@).map_values(
                |p: Seq<char>| (recent_name(p), p),
            ),
            all_ascii(filter@) ==> row_texts(r@) == recent_rows(
                texts(self.recent_files@),
                filter@.map_values(|c: char| ascii_lower(c)),
            ),
    {
        let needle_s = lowercase_of(filter);
        let needle = chars_of(needle_s.as_str());
        let ghost list = texts(self.recent_files@);
        let mut out: Vec<RecentEntry> = Vec::new();
        let n = self.recent_files.len();
        let mut i: usize = 0;
        while i < n
            invariant
                n == self.recent_files@.len(),
                i <= n,
                list == texts(self.recent_files@),
                needle@ == lowercase(filter@),
                row_texts(out@) == recent_rows(list.take(i as int), needle@),
            decreases n - i,
        {
            let p: &str = self.recent_files[i].as_str();
            let ghost before = out@;
            let keep = if needle.len() == 0 {
                true
            } else {
                let lower = lowercase_of(p);
                let hay = chars_of(lower.as_str());
                contains_chars(&hay, &needle)
            };
            if keep {
                let name = match file_name_of(p) {
                    Some(nm) => nm,
                    None => String::from_str("(unknown)"),
                };
                out.push(RecentEntry { name, path: String::from_str(p) });
            }
            proof {
                assert(list.take(i + 1).drop_last() =~= list.take(i as int));
                assert(list.take(i + 1).last() == list[i as int]);
                if keep {
                    assert(row_texts(out@) =~= row_texts(before).push((recent_name(list[i as int]), list[i as int])));
                } else {
                    assert(row_texts(out@) =~= row_texts(before));
                }
            }
            i = i + 1;
        }
        assert(list.take(n as int) =~= list);
        proof {
            if filter@.len() == 0 {
                assert(needle@ =~= Seq::<char>::empty());
                law_empty_filter_shows_all(list);
            }
        }
        out
    }
}

/// Whether two strings hold the same characters.
pub fn str_eq(a: &str, b: &str) -> (r: bool)
    ensures
        r == (a@ == b@),
{
    let sa = String::from_str(a);
    let sb = String::from_str(b);
    sa == sb
}


/// After `path` is pushed, it is the first entry, it occurs once, the list
/// holds at most [`MAX_RECENT`] entries, every entry was there before or is
/// `path`, and a list without duplicates stays so.
pub proof fn law_push_recent(list: Seq<Seq<char>>, p: Seq<char>)
    ensures
        pushed_recent(list, p).len() >= 1,
        pushed_recent(list, p)[0] == p,
        pushed_recent(list, p).len() <= MAX_RECENT,
        forall|i: int| 1 <= i < pushed_recent(list, p).len() ==> #[trigger] pushed_recent(list, p)[i] != p,
        forall|x: Seq<char>| #[trigger] pushed_recent(list, p).contains(x) ==> x == p || list.contains(x),
        no_duplicates(list) ==> no_duplicates(pushed_recent(list, p)),
{
    let w = without(list, p);
    let l = seq![p] + w;
    let r = pushed_recent(list, p);
    assert forall|i: int| 1 <= i < r.len() implies #[trigger] r[i] != p by {
        assert(r[i] == w[i - 1]);
        lemma_without_contains(list, p, p);
        assert(w.contains(w[i - 1]));
    }
    assert forall|x: Seq<char>| #[trigger] r.contains(x) implies x == p || list.contains(x) by {
        let k = choose|k: int| 0 <= k < r.len() && r[k] == x;
        if k > 0 {
            assert(r[k] == w[k - 1]);
            assert(w.contains(x));
            lemma_without_contains(list, p, x);
        }
    }
    if no_duplicates(list) {
        lemma_without_no_duplicates(list, p);
        assert forall|i: int, j: int| 0 <= i < j < r.len() implies r[i] != r[j] by {
            if i == 0 {
                assert(r[j] == w[j - 1]);
                lemma_without_contains(list, p, p);
                assert(w.contains(w[j - 1]));
            } else {
                assert(r[i] == w[i - 1] && r[j] == w[j - 1]);
            }
        }
    }
}

/// After `path` is removed, it is not in the list, and every other entry
/// stays.
pub proof fn law_remove_recent(list: Seq<Seq<char>>, p: Seq<char>, x: Seq<char>)
    ensures
        !without(list, p).contains(p),
        x != p ==> (without(list, p).contains(x) == list.contains(x)),
{
    lemma_without_contains(list, p, p);
    lemma_without_contains(list, p, x);
}

/// Removing twice is removing once.
pub proof fn law_remove_recent_idempotent(list: Seq<Seq<char>>, p: Seq<char>)
    ensures
        without(without(list, p), p) == without(list, p),
    decreases list.len(),
{
    if list.len() > 0 {
        law_remove_recent_idempotent(list.drop_last(), p);
        let rest = without(list.drop_last(), p);
        if list.last() != p {
            assert(rest.push(list.last()).drop_last() =~= rest);
        }
    }
}

/// Pushing the same path twice is pushing it once.
pub proof fn law_push_recent_idempotent(list: Seq<Seq<char>>, p: Seq<char>)
    ensures
        pushed_recent(pushed_recent(list, p), p) == pushed_recent(list, p),
{
    let w = without(list, p);
    let r = pushed_recent(list, p);
    law_push_recent(list, p);
    // Removing `p` from the pushed list leaves its tail.
    assert(without(r, p) =~= r.drop_first()) by {
        lemma_without_tail(r, p);
    }
    assert(seq![p] + r.drop_first() =~= r);
}

/// `without` of a list whose only occurrence of `p` is its first entry is the
/// rest of the list.
proof fn lemma_without_tail(r: Seq<Seq<char>>, p: Seq<char>)
    requires
        r.len() >= 1,
        r[0] == p,
        forall|i: int| 1 <= i < r.len() ==> #[trigger] r[i] != p,
    ensures
        without(r, p) == r.drop_first(),
    decreases r.len(),
{
    if r.len() == 1 {
        assert(r.drop_last().len() == 0);
        assert(without(r.drop_last(), p) =~= r.drop_first());
    } else {
        let init = r.drop_last();
        assert forall|i: int| 1 <= i < init.len() implies #[trigger] init[i] != p by {
            assert(init[i] == r[i]);
        }
        lemma_without_tail(init, p);
        assert(r.last() == r[r.len() - 1]);
        assert(r.last() != p);
        assert(init.drop_first().push(r.last()) =~= r.drop_first());
    }
}


/// `without` ignores a leading `p`.
proof fn lemma_without_front(w: Seq<Seq<char>>, p: Seq<char>)
    ensures
        without(seq![p] + w, p) == without(w, p),
    decreases w.len(),
{
    if w.len() == 0 {
        let e = Seq::<Seq<char>>::empty();
        assert((seq![p] + w).drop_last() =~= e);
        assert(without(e, p) == e);
        assert(w =~= e);
        assert((seq![p] + w).last() == p);
    } else {
        assert((seq![p] + w).drop_last() =~= seq![p] + w.drop_last());
        assert((seq![p] + w).last() == w.last());
        lemma_without_front(w.drop_last(), p);
    }
}

/// Pushing a path and then removing it leaves the list without that path,
/// unless the push cut the list short.
pub proof fn law_push_then_remove(list: Seq<Seq<char>>, p: Seq<char>)
    requires
        without(list, p).len() < MAX_RECENT,
    ensures
        without(pushed_recent(list, p), p) == without(list, p),
{
    let w = without(list, p);
    assert(pushed_recent(list, p) == seq![p] + w);
    lemma_without_front(w, p);
    law_remove_recent_idempotent(list, p);
}


/// `a` is a subsequence of `b`: `b` with some entries left out, order kept.
pub open spec fn is_subsequence<T>(a: Seq<T>, b: Seq<T>) -> bool
    decreases b.len(),
{
    if a.len() == 0 {
        true
    } else if b.len() == 0 {
        false
    } else if a.last() == b.last() {
        is_subsequence(a.drop_last(), b.drop_last())
    } else {
        is_subsequence(a, b.drop_last())
    }
}

/// A subsequence stays one without its last entry.
proof fn lemma_subsequence_drop_last<T>(a: Seq<T>, b: Seq<T>)
    requires
        is_subsequence(a, b),
        a.len() > 0,
    ensures
        is_subsequence(a.drop_last(), b),
    decreases b.len(), 1nat,
{
    if b.len() > 0 {
        if a.last() != b.last() {
            lemma_subsequence_drop_last(a, b.drop_last());
        }
        lemma_subsequence_extend(a.drop_last(), b.drop_last(), b.last());
        assert(b.drop_last().push(b.last()) =~= b);
    }
}

/// A subsequence of `b` stays one when `b` grows.
proof fn lemma_subsequence_extend<T>(a: Seq<T>, b: Seq<T>, x: T)
    requires
        is_subsequence(a, b),
    ensures
        is_subsequence(a, b.push(x)),
    decreases b.len() + 1, 0nat,
{
    assert(b.push(x).drop_last() =~= b);
    if a.len() > 0 && a.last() == x {
        lemma_subsequence_drop_last(a, b);
    }
}

proof fn lemma_subsequence_push<T>(a: Seq<T>, b: Seq<T>, x: T)
    requires
        is_subsequence(a, b),
    ensures
        is_subsequence(a.push(x), b.push(x)),
{
    assert(a.push(x).drop_last() =~= a);
    assert(b.push(x).drop_last() =~= b);
}

/// A needle found inside another is found wherever that one is.
proof fn lemma_contains_transitive(hay: Seq<char>, mid: Seq<char>, needle: Seq<char>)
    requires
        contains_text(hay, mid),
        contains_text(mid, needle),
    ensures
        contains_text(hay, needle),
{
    let i = choose|i: int| 0 <= i && i + mid.len() <= hay.len() && #[trigger] hay.subrange(i, i + mid.len()) == mid;
    let j = choose|j: int| 0 <= j && j + needle.len() <= mid.len() && #[trigger] mid.subrange(j, j + needle.len()) == needle;
    assert(hay.subrange(i + j, i + j + needle.len()) =~= mid.subrange(j, j + needle.len()));
}

/// A path shown under a narrower filter is shown under a wider one.
proof fn lemma_matches_narrower(p: Seq<char>, wide: Seq<char>, narrow: Seq<char>)
    requires
        contains_text(narrow, wide),
        recent_matches(p, narrow),
    ensures
        recent_matches(p, wide),
{
    if wide.len() > 0 {
        if narrow.len() == 0 {
            let j = choose|j: int| 0 <= j && j + wide.len() <= narrow.len() && #[trigger] narrow.subrange(j, j + wide.len()) == wide;
        } else {
            lemma_contains_transitive(lowercase(p), narrow, wide);
        }
    }
}

/// Filtering the recent list by a narrower (lower-cased) filter — one that
/// contains the wider filter — shows a sub-list of what the wider one shows,
/// in the same order.
pub proof fn law_narrower_filter_sublist(list: Seq<Seq<char>>, wide: Seq<char>, narrow: Seq<char>)
    requires
        contains_text(narrow, wide),
    ensures
        is_subsequence(recent_rows(list, narrow), recent_rows(list, wide)),
    decreases list.len(),
{
    if list.len() == 0 {
    } else {
        law_narrower_filter_sublist(list.drop_last(), wide, narrow);
        let rn = recent_rows(list.drop_last(), narrow);
        let rw = recent_rows(list.drop_last(), wide);
        let x = (recent_name(list.last()), list.last());
        if recent_matches(list.last(), narrow) {
            lemma_matches_narrower(list.last(), wide, narrow);
            lemma_subsequence_push(rn, rw, x);
        } else if recent_matches(list.last(), wide) {
            lemma_subsequence_extend(rn, rw, x);
        }
    }
}

/// With an empty filter every recent path is shown, in list order.
pub proof fn law_empty_filter_shows_all(list: Seq<Seq<char>>)
    ensures
        recent_rows(list, Seq::<char>::empty()) == list.map_values(|p: Seq<char>| (recent_name(p), p)),
    decreases list.len(),
{
    if list.len() > 0 {
        law_empty_filter_shows_all(list.drop_last());
        assert(list.map_values(|p: Seq<char>| (recent_name(p), p)) =~= list.drop_last().map_values(
            |p: Seq<char>| (recent_name(p), p),
        ).push((recent_name(list.last()), list.last())));
    } else {
        assert(list.map_values(|p: Seq<char>| (recent_name(p), p)) =~= Seq::<(Seq<char>, Seq<char>)>::empty());
    }
}


/// An ASCII filter and any other ASCII filter with the same letters in a
/// different case select the same rows (see [`Settings::recent_entries`]).
pub proof fn law_ascii_filter_case_insensitive(list: Seq<Seq<char>>, f: Seq<char>, g: Seq<char>)
    requires
        f.map_values(|c: char| ascii_lower(c)) == g.map_values(|c: char| ascii_lower(c)),
    ensures
        recent_rows(list, f.map_values(|c: char| ascii_lower(c))) == recent_rows(
            list,
            g.map_values(|c: char| ascii_lower(c)),
        ),
{
}

} // verus!

