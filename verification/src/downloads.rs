//! Watching the downloads folder for ROMs: a file is imported once two polls in a row find
//! it with the same size and modification time, so that files still being written wait.

use vstd::prelude::*;

use crate::text::{chars_eq, chars_of};

verus! {

/// Files smaller than this are taken to be still downloading.
pub const MIN_ROM_BYTES: u64 = 256;

/// What a poll sees of a file.
#[derive(Debug, Clone, Copy, PartialEq, Eq, Structural)]
pub struct Fingerprint {
    pub size: u64,
    pub modified_nanos: u128,
}

/// The watcher's memory between polls.
#[derive(Debug, Clone)]
pub struct DownloadWatch {
    /// Each file seen at the last poll and what it looked like.
    pub seen: Vec<(String, Fingerprint)>,
    /// Files already imported, which are left alone.
    pub imported: Vec<String>,
}

/// The watcher as plain values.
pub struct DownloadWatchView {
    pub seen: Seq<(Seq<char>, Fingerprint)>,
    pub imported: Seq<Seq<char>>,
}

/// The path of each `(path, fingerprint)` entry, as text.
pub open spec fn seen_view(v: Seq<(String, Fingerprint)>) -> Seq<(Seq<char>, Fingerprint)> {
    v.map_values(|e: (String, Fingerprint)| (e.0@, e.1))
}

/// Each path as text.
pub open spec fn paths_view(v: Seq<String>) -> Seq<Seq<char>> {
    v.map_values(|p: String| p@)
}

impl View for DownloadWatch {
    type V = DownloadWatchView;

    open spec fn view(&self) -> DownloadWatchView {
        DownloadWatchView { seen: seen_view(self.seen@), imported: paths_view(self.imported@) }
    }
}

/// What to do with a file found at a poll.
#[derive(Debug, Clone, Copy, PartialEq, Eq, Structural)]
pub enum DownloadDecision {
    /// Imported before: leave it.
    AlreadyImported,
    /// Too small to be a finished ROM: look again later.
    TooSmall,
    /// Unchanged since the last poll: import it now.
    Import,
    /// New or changed: remember it and look again.
    Wait,
}

/// The fingerprint remembered for `path` (the first entry for it).
pub open spec fn remembered(seen: Seq<(Seq<char>, Fingerprint)>, path: Seq<char>) -> Option<Fingerprint>
    decreases seen.len(),
{
    if seen.len() == 0 {
        None
    } else if seen[0].0 == path {
        Some(seen[0].1)
    } else {
        remembered(seen.drop_first(), path)
    }
}

/// What a poll does with `path` looking like `fp`.
pub open spec fn decision(w: DownloadWatchView, path: Seq<char>, fp: Fingerprint) -> DownloadDecision {
    if w.imported.contains(path) {
        DownloadDecision::AlreadyImported
    } else if fp.size < MIN_ROM_BYTES {
        DownloadDecision::TooSmall
    } else if remembered(w.seen, path) == Some(fp) {
        DownloadDecision::Import
    } else {
        DownloadDecision::Wait
    }
}

/// The entries with `path` replaced by one for `fp`, or `fp` added at the end.
pub open spec fn with_entry(seen: Seq<(Seq<char>, Fingerprint)>, path: Seq<char>, fp: Fingerprint) -> Seq<
    (Seq<char>, Fingerprint),
> {
    if exists|i: int| 0 <= i < seen.len() && seen[i].0 == path {
        let i = choose|i: int| 0 <= i < seen.len() && seen[i].0 == path && forall|j: int| 0 <= j < i ==> seen[j].0 != path;
        seen.update(i, (path, fp))
    } else {
        seen.push((path, fp))
    }
}

/// Entries for other paths than `path`.
pub open spec fn other_path(path: Seq<char>) -> spec_fn((Seq<char>, Fingerprint)) -> bool {
    |e: (Seq<char>, Fingerprint)| e.0 != path
}

/// Entries for one of `paths`.
pub open spec fn among(paths: Seq<Seq<char>>) -> spec_fn((Seq<char>, Fingerprint)) -> bool {
    |e: (Seq<char>, Fingerprint)| paths.contains(e.0)
}

proof fn lemma_remembered_first(s: Seq<(Seq<char>, Fingerprint)>, p: Seq<char>, i: int)
    requires
        0 <= i < s.len(),
        s[i].0 == p,
        forall|j: int| 0 <= j < i ==> s[j].0 != p,
    ensures
        remembered(s, p) == Some(s[i].1),
    decreases i,
{
    if i > 0 {
        let t = s.drop_first();
        assert forall|j: int| 0 <= j < i - 1 implies t[j].0 != p by {
            assert(t[j] == s[j + 1]);
        }
        lemma_remembered_first(t, p, i - 1);
        assert(s[0].0 != p);
    }
}

/// A file recorded at one poll and found unchanged at the next is imported, unless it was
/// imported before or is too small.
pub proof fn lemma_unchanged_file_is_imported(w: DownloadWatchView, path: Seq<char>, fp: Fingerprint)
    requires
        !w.imported.contains(path),
        fp.size >= MIN_ROM_BYTES,
    ensures
        decision(DownloadWatchView { seen: with_entry(w.seen, path, fp), ..w }, path, fp)
            == DownloadDecision::Import,
{
    let s = w.seen;
    if exists|i: int| 0 <= i < s.len() && s[i].0 == path {
        let i = choose|i: int| 0 <= i < s.len() && s[i].0 == path && forall|j: int| 0 <= j < i ==> s[j].0 != path;
        let k = choose|k: int| 0 <= k < s.len() && s[k].0 == path;
        lemma_first_match_exists(s, path, k);
        let u = s.update(i, (path, fp));
        assert forall|j: int| 0 <= j < i implies u[j].0 != path by {
            assert(u[j] == s[j]);
        }
        lemma_remembered_first(u, path, i);
    } else {
        let u = s.push((path, fp));
        assert forall|j: int| 0 <= j < s.len() implies u[j].0 != path by {
            assert(u[j] == s[j]);
        }
        lemma_remembered_first(u, path, s.len() as int);
    }
}

proof fn lemma_first_match_exists(s: Seq<(Seq<char>, Fingerprint)>, p: Seq<char>, k: int)
    requires
        0 <= k < s.len(),
        s[k].0 == p,
    ensures
        exists|i: int| 0 <= i < s.len() && s[i].0 == p && forall|j: int| 0 <= j < i ==> s[j].0 != p,
    decreases k,
{
    if exists|j: int| 0 <= j < k && s[j].0 == p {
        let j = choose|j: int| 0 <= j < k && s[j].0 == p;
        lemma_first_match_exists(s, p, j);
    } else {
        assert(forall|j: int| 0 <= j < k ==> s[j].0 != p);
    }
}

fn same_path(a: &str, b: &str) -> (r: bool)
    ensures
        r == (a@ == b@),
{
    let x = chars_of(a);
    let y = chars_of(b);
    chars_eq(x.as_slice(), y.as_slice())
}

impl DownloadWatch {
    /// A watcher that has seen and imported nothing.
    pub fn new() -> (r: Self)
        ensures
            r@.seen.len() == 0,
            r@.imported.len() == 0,
    {
        DownloadWatch { seen: Vec::new(), imported: Vec::new() }
    }

    /// What to do with the file `path` found looking like `fp` (see `decision`).
    pub fn decide(&self, path: &str, fp: Fingerprint) -> (r: DownloadDecision)
        ensures
            r == decision(self@, path@, fp),
    {
        let mut i: usize = 0;
        while i < self.imported.len()
            invariant
                i <= self.imported@.len(),
                forall|k: int| 0 <= k < i ==> paths_view(self.imported@)[k] != path@,
            decreases self.imported@.len() - i,
        {
            if same_path(self.imported[i].as_str(), path) {
                assert(paths_view(self.imported@)[i as int] == path@);
                return DownloadDecision::AlreadyImported;
            }
            i = i + 1;
        }
        assert(!self@.imported.contains(path@));
        if fp.size < MIN_ROM_BYTES {
            return DownloadDecision::TooSmall;
        }
        let mut j: usize = 0;
        assert(self@.seen.subrange(0, self@.seen.len() as int) =~= self@.seen);
        while j < self.seen.len()
            invariant
                j <= self.seen@.len(),
                !self@.imported.contains(path@),
                fp.size >= MIN_ROM_BYTES,
                remembered(self@.seen, path@) == remembered(self@.seen.subrange(j as int, self@.seen.len() as int), path@),
            decreases self.seen@.len() - j,
        {
            let ghost rest = self@.seen.subrange(j as int, self@.seen.len() as int);
            assert(rest[0] == self@.seen[j as int]);
            if same_path(self.seen[j].0.as_str(), path) {
                return if self.seen[j].1 == fp {
                    DownloadDecision::Import
                } else {
                    DownloadDecision::Wait
                };
            }
            assert(rest.drop_first() =~= self@.seen.subrange(j + 1, self@.seen.len() as int));
            j = j + 1;
        }
        DownloadDecision::Wait
    }

    /// Remembers that `path` looked like `fp` (see `with_entry`).
    pub fn record(&mut self, path: &str, fp: Fingerprint)
        ensures
            final(self)@.seen == with_entry(old(self)@.seen, path@, fp),
            final(self)@.imported == old(self)@.imported,
    {
        let ghost s0 = self@.seen;
        let mut j: usize = 0;
        while j < self.seen.len()
            invariant
                j <= self.seen@.len(),
                seen_view(self.seen@) == s0,
                s0 == old(self)@.seen,
                self.imported@ == old(self).imported@,
                forall|k: int| 0 <= k < j ==> s0[k].0 != path@,
            decreases self.seen@.len() - j,
        {
            if same_path(self.seen[j].0.as_str(), path) {
                proof {
                    assert(s0[j as int].0 == path@);
                    let c = choose|i: int| 0 <= i < s0.len() && s0[i].0 == path@ && forall|k: int| 0 <= k < i ==> s0[k].0 != path@;
                    assert(0 <= j < s0.len() && s0[j as int].0 == path@ && forall|k: int| 0 <= k < j ==> s0[k].0 != path@);
                    if c < j {
                    } else if c > j {
                        assert(s0[j as int].0 != path@);
                    }
                    assert(c == j);
                }
                self.seen.set(j, (path.to_owned(), fp));
                assert(seen_view(self.seen@) =~= s0.update(j as int, (path@, fp)));
                return;
            }
            j = j + 1;
        }
        self.seen.push((path.to_owned(), fp));
        assert(seen_view(self.seen@) =~= s0.push((path@, fp)));
    }

    /// Notes `path` as imported and forgets what it looked like.
    pub fn mark_imported(&mut self, path: &str)
        ensures
            final(self)@.imported == old(self)@.imported.push(path@),
            final(self)@.seen == old(self)@.seen.filter(other_path(path@)),
    {
        let ghost s0 = self@.seen;
        let mut kept: Vec<(String, Fingerprint)> = Vec::new();
        let mut j: usize = 0;
        while j < self.seen.len()
            invariant
                j <= self.seen@.len(),
                seen_view(self.seen@) == s0,
                seen_view(kept@) == s0.subrange(0, j as int).filter(other_path(path@)),
            decreases self.seen@.len() - j,
        {
            proof {
                s0.subrange(0, j as int).lemma_filter_push(s0[j as int], other_path(path@));
                assert(s0.subrange(0, j + 1) =~= s0.subrange(0, j as int).push(s0[j as int]));
            }
            if !same_path(self.seen[j].0.as_str(), path) {
                let e = (self.seen[j].0.clone(), self.seen[j].1);
                kept.push(e);
                assert(seen_view(kept@) =~= s0.subrange(0, j as int).filter(other_path(path@)).push(s0[j as int]));
            }
            j = j + 1;
        }
        assert(s0.subrange(0, s0.len() as int) =~= s0);
        self.seen = kept;
        self.imported.push(path.to_owned());
        assert(paths_view(self.imported@) =~= old(self)@.imported.push(path@));
    }

    /// Forgets the files that are no longer in the folder.
    pub fn forget_missing(&mut self, present: &[String])
        ensures
            final(self)@.seen == old(self)@.seen.filter(among(paths_view(present@))),
            final(self)@.imported == old(self)@.imported,
    {
        let ghost s0 = self@.seen;
        let ghost ps = paths_view(present@);
        let mut kept: Vec<(String, Fingerprint)> = Vec::new();
        let mut j: usize = 0;
        while j < self.seen.len()
            invariant
                j <= self.seen@.len(),
                seen_view(self.seen@) == s0,
                ps == paths_view(present@),
                seen_view(kept@) == s0.subrange(0, j as int).filter(among(ps)),
            decreases self.seen@.len() - j,
        {
            proof {
                s0.subrange(0, j as int).lemma_filter_push(s0[j as int], among(ps));
                assert(s0.subrange(0, j + 1) =~= s0.subrange(0, j as int).push(s0[j as int]));
            }
            let mut found = false;
            let mut k: usize = 0;
            while k < present.len()
                invariant
                    j < self.seen@.len(),
                    seen_view(self.seen@) == s0,
                    ps == paths_view(present@),
                    k <= present@.len(),
                    found == exists|m: int| 0 <= m < k && ps[m] == s0[j as int].0,
                decreases present@.len() - k,
            {
                if same_path(present[k].as_str(), self.seen[j].0.as_str()) {
                    found = true;
                }
                assert(ps[k as int] == present@[k as int]@);
                k = k + 1;
            }
            assert(found == ps.contains(s0[j as int].0));
            if found {
                let e = (self.seen[j].0.clone(), self.seen[j].1);
                kept.push(e);
                assert(seen_view(kept@) =~= s0.subrange(0, j as int).filter(among(ps)).push(s0[j as int]));
            }
            j = j + 1;
        }
        assert(s0.subrange(0, s0.len() as int) =~= s0);
        self.seen = kept;
    }
}

} // verus!
