//! The launcher's game list: which games a search and the favourites switch leave, and in
//! what order a sort mode lists them.

use vstd::prelude::*;

use crate::launcher::{display_game_name, game_display_name};
use crate::platform::{ascii_lower, to_ascii_lower};
use crate::regression::{contains, contains_chars};
use crate::text::{chars_of, trim_range, trim_ws};

verus! {

/// How the game list is ordered.
#[derive(Debug, Clone, Copy, PartialEq, Eq, Structural)]
pub enum GameSortMode {
    /// As played, most recent first.
    Recent,
    /// By file name, ignoring ASCII case.
    AtoZ,
    /// Favourites first, then the most recently played.
    Favorites,
}

/// One game of the list, as the host knows it.
#[derive(Debug, Clone)]
pub struct GameEntry {
    /// The file name, when it is valid text.
    pub file_name: Option<String>,
    /// The file name without its extension, when it is valid text.
    pub file_stem: Option<String>,
    pub favorite: bool,
    pub last_played_unix_secs: Option<u64>,
}

/// `s` with ASCII letters in lower case.
pub open spec fn lower(s: Seq<char>) -> Seq<char> {
    s.map_values(|c: char| ascii_lower(c))
}

/// Strict lexicographic order of code points.
pub open spec fn seq_lt(a: Seq<char>, b: Seq<char>) -> bool
    decreases a.len(),
{
    if a.len() == 0 {
        b.len() > 0
    } else if b.len() == 0 {
        false
    } else if (a[0] as u32) != (b[0] as u32) {
        (a[0] as u32) < (b[0] as u32)
    } else {
        seq_lt(a.drop_first(), b.drop_first())
    }
}

/// The text a game is sorted by in A-Z order: its file name in lower case (empty when the
/// name is not valid text).
pub open spec fn name_key(e: GameEntry) -> Seq<char> {
    match e.file_name {
        Some(n) => lower(n@),
        None => Seq::empty(),
    }
}

/// Whether game `x` comes strictly before game `y` in sort mode `mode`.
pub open spec fn sorts_before(mode: GameSortMode, x: GameEntry, y: GameEntry) -> bool {
    match mode {
        GameSortMode::Recent => false,
        GameSortMode::AtoZ => seq_lt(name_key(x), name_key(y)),
        GameSortMode::Favorites => {
            let lx = match x.last_played_unix_secs {
                Some(t) => t,
                None => 0,
            };
            let ly = match y.last_played_unix_secs {
                Some(t) => t,
                None => 0,
            };
            (x.favorite && !y.favorite) || (x.favorite == y.favorite && lx > ly)
        },
    }
}

/// `sorted` (indices into `games`) with index `x` inserted after every entry it does not
/// sort strictly before.
pub open spec fn insert_stable(
    games: Seq<GameEntry>,
    mode: GameSortMode,
    sorted: Seq<usize>,
    x: usize,
) -> Seq<usize>
    decreases sorted.len(),
{
    if sorted.len() == 0 {
        seq![x]
    } else if sorts_before(mode, games[x as int], games[sorted.last() as int]) {
        insert_stable(games, mode, sorted.drop_last(), x).push(sorted.last())
    } else {
        sorted.push(x)
    }
}

/// The indices `0..n` of `games` stably sorted by `mode` (equal games keep their order).
pub open spec fn sorted_indices(games: Seq<GameEntry>, mode: GameSortMode, n: nat) -> Seq<usize>
    decreases n,
{
    if n == 0 {
        Seq::empty()
    } else {
        insert_stable(games, mode, sorted_indices(games, mode, (n - 1) as nat), (n - 1) as usize)
    }
}

/// What a search matches against: the listed name and the file name (`<invalid file
/// name>` when it is not valid text), in lower case.
pub open spec fn haystack(e: GameEntry) -> Seq<char> {
    lower(
        game_display_name(
            match e.file_stem {
                Some(s) => Some(s@),
                None => None,
            },
            128,
        ) + " "@ + match e.file_name {
            Some(n) => n@,
            None => "<invalid file name>"@,
        },
    )
}

/// Whether a game stays in the list: the trimmed search text (ignoring ASCII case) occurs
/// in its haystack, or is empty; and it is a favourite when only favourites are shown.
pub open spec fn is_listed(e: GameEntry, search: Seq<char>, favorites_only: bool) -> bool {
    let term = lower(trim_ws(search));
    (term.len() == 0 || contains(haystack(e), term)) && (!favorites_only || e.favorite)
}

/// `is_listed` as a test on indices into `games`.
pub open spec fn listed_pred(games: Seq<GameEntry>, search: Seq<char>, favorites_only: bool) -> spec_fn(
    usize,
) -> bool {
    |i: usize| is_listed(games[i as int], search, favorites_only)
}

/// The games listed, as indices into `games`, in display order.
pub open spec fn listed_games(
    games: Seq<GameEntry>,
    search: Seq<char>,
    favorites_only: bool,
    mode: GameSortMode,
) -> Seq<usize> {
    sorted_indices(games, mode, games.len()).filter(listed_pred(games, search, favorites_only))
}

proof fn lemma_seq_lt_asymmetric(a: Seq<char>, b: Seq<char>)
    ensures
        seq_lt(a, b) ==> !seq_lt(b, a),
    decreases a.len(),
{
    if a.len() > 0 && b.len() > 0 && (a[0] as u32) == (b[0] as u32) {
        lemma_seq_lt_asymmetric(a.drop_first(), b.drop_first());
    }
}

proof fn lemma_before_asymmetric(mode: GameSortMode, x: GameEntry, y: GameEntry)
    ensures
        sorts_before(mode, x, y) ==> !sorts_before(mode, y, x),
{
    lemma_seq_lt_asymmetric(name_key(x), name_key(y));
}

proof fn lemma_insert_stable_shape(games: Seq<GameEntry>, mode: GameSortMode, s: Seq<usize>, x: usize)
    ensures
        insert_stable(games, mode, s, x).len() == s.len() + 1,
        insert_stable(games, mode, s, x).last() == x || (s.len() > 0 && insert_stable(games, mode, s, x).last()
            == s.last()),
    decreases s.len(),
{
    if s.len() > 0 && sorts_before(mode, games[x as int], games[s.last() as int]) {
        lemma_insert_stable_shape(games, mode, s.drop_last(), x);
    }
}

/// Sorting `n` games gives `n` entries, in the order of the sort mode (see
/// `lemma_listing_in_order`).
pub proof fn lemma_sorted_listing(games: Seq<GameEntry>, mode: GameSortMode, n: nat)
    ensures
        sorted_indices(games, mode, n).len() == n,
        in_order(games, mode, sorted_indices(games, mode, n)),
    decreases n,
{
    lemma_sorted_in_order(games, mode, n);
    if n > 0 {
        lemma_sorted_listing(games, mode, (n - 1) as nat);
        lemma_insert_stable_shape(games, mode, sorted_indices(games, mode, (n - 1) as nat), (n - 1) as usize);
    }
}

/// Whether no entry of `order` comes anywhere after one it sorts strictly before.
pub open spec fn in_order(games: Seq<GameEntry>, mode: GameSortMode, order: Seq<usize>) -> bool {
    forall|i: int, j: int|
        0 <= i < j < order.len() ==> !sorts_before(
            mode,
            #[trigger] games[order[j] as int],
            #[trigger] games[order[i] as int],
        )
}

proof fn lemma_seq_lt_negatively_transitive(a: Seq<char>, b: Seq<char>, c: Seq<char>)
    ensures
        seq_lt(a, c) ==> seq_lt(a, b) || seq_lt(b, c),
    decreases a.len(),
{
    if a.len() > 0 && b.len() > 0 && c.len() > 0 && (a[0] as u32) == (b[0] as u32) && (b[0] as u32) == (
    c[0] as u32) {
        lemma_seq_lt_negatively_transitive(a.drop_first(), b.drop_first(), c.drop_first());
    }
}

proof fn lemma_before_negatively_transitive(mode: GameSortMode, x: GameEntry, y: GameEntry, z: GameEntry)
    ensures
        sorts_before(mode, x, z) ==> sorts_before(mode, x, y) || sorts_before(mode, y, z),
{
    lemma_seq_lt_negatively_transitive(name_key(x), name_key(y), name_key(z));
}

proof fn lemma_insert_stable_elements(games: Seq<GameEntry>, mode: GameSortMode, s: Seq<usize>, x: usize)
    ensures
        forall|k: int|
            0 <= k < insert_stable(games, mode, s, x).len() ==> #[trigger] insert_stable(games, mode, s, x)[k]
                == x || s.contains(insert_stable(games, mode, s, x)[k]),
    decreases s.len(),
{
    lemma_insert_stable_shape(games, mode, s, x);
    let r = insert_stable(games, mode, s, x);
    if s.len() > 0 && sorts_before(mode, games[x as int], games[s.last() as int]) {
        let s0 = s.drop_last();
        lemma_insert_stable_elements(games, mode, s0, x);
        lemma_insert_stable_shape(games, mode, s0, x);
        let r0 = insert_stable(games, mode, s0, x);
        assert forall|k: int| 0 <= k < r.len() implies #[trigger] r[k] == x || s.contains(r[k]) by {
            if k < r0.len() {
                assert(r[k] == r0[k]);
                if r0[k] != x {
                    let i = choose|i: int| 0 <= i < s0.len() && s0[i] == r0[k];
                    assert(s[i] == s0[i]);
                }
            } else {
                assert(r[k] == s[s.len() - 1]);
            }
        }
    } else if s.len() > 0 {
        assert forall|k: int| 0 <= k < r.len() implies #[trigger] r[k] == x || s.contains(r[k]) by {
            if k < s.len() {
                assert(r[k] == s[k]);
            }
        }
    }
}

proof fn lemma_insert_keeps_in_order(games: Seq<GameEntry>, mode: GameSortMode, s: Seq<usize>, x: usize)
    requires
        in_order(games, mode, s),
    ensures
        in_order(games, mode, insert_stable(games, mode, s, x)),
    decreases s.len(),
{
    let r = insert_stable(games, mode, s, x);
    lemma_insert_stable_shape(games, mode, s, x);
    if s.len() == 0 {
    } else if sorts_before(mode, games[x as int], games[s.last() as int]) {
        let s0 = s.drop_last();
        let last = s.last();
        assert(in_order(games, mode, s0)) by {
            assert forall|i: int, j: int| 0 <= i < j < s0.len() implies !sorts_before(
                mode,
                #[trigger] games[s0[j] as int],
                #[trigger] games[s0[i] as int],
            ) by {
                assert(s0[i] == s[i] && s0[j] == s[j]);
            }
        }
        lemma_insert_keeps_in_order(games, mode, s0, x);
        lemma_insert_stable_shape(games, mode, s0, x);
        lemma_insert_stable_elements(games, mode, s0, x);
        lemma_before_asymmetric(mode, games[x as int], games[last as int]);
        let r0 = insert_stable(games, mode, s0, x);
        assert forall|i: int, j: int| 0 <= i < j < r.len() implies !sorts_before(
            mode,
            #[trigger] games[r[j] as int],
            #[trigger] games[r[i] as int],
        ) by {
            if j < r0.len() {
                assert(r[i] == r0[i] && r[j] == r0[j]);
            } else {
                assert(r[j] == last && r[i] == r0[i]);
                assert(r0[i] == x || s0.contains(r0[i]));
                if r0[i] != x {
                    let m = choose|m: int| 0 <= m < s0.len() && s0[m] == r0[i];
                    assert(s[m] == r0[i] && s[s.len() - 1] == last);
                }
            }
        }
    } else {
        let last = s.last();
        assert forall|i: int, j: int| 0 <= i < j < r.len() implies !sorts_before(
            mode,
            #[trigger] games[r[j] as int],
            #[trigger] games[r[i] as int],
        ) by {
            if j < s.len() {
                assert(r[i] == s[i] && r[j] == s[j]);
            } else {
                assert(r[j] == x && r[i] == s[i]);
                if i < s.len() - 1 {
                    assert(!sorts_before(mode, games[s[s.len() - 1] as int], games[s[i] as int]));
                }
                lemma_before_negatively_transitive(mode, games[x as int], games[last as int], games[s[i] as int]);
            }
        }
    }
}

proof fn lemma_filter_keeps_in_order(
    games: Seq<GameEntry>,
    mode: GameSortMode,
    s: Seq<usize>,
    p: spec_fn(usize) -> bool,
)
    requires
        in_order(games, mode, s),
    ensures
        in_order(games, mode, s.filter(p)),
        forall|k: int| 0 <= k < s.filter(p).len() ==> s.contains(#[trigger] s.filter(p)[k]),
    decreases s.len(),
{
    if s.len() > 0 {
        let s0 = s.drop_last();
        let last = s.last();
        assert(s0.push(last) =~= s);
        assert(in_order(games, mode, s0)) by {
            assert forall|i: int, j: int| 0 <= i < j < s0.len() implies !sorts_before(
                mode,
                #[trigger] games[s0[j] as int],
                #[trigger] games[s0[i] as int],
            ) by {
                assert(s0[i] == s[i] && s0[j] == s[j]);
            }
        }
        lemma_filter_keeps_in_order(games, mode, s0, p);
        s0.lemma_filter_push(last, p);
        let f0 = s0.filter(p);
        let f = s.filter(p);
        assert forall|k: int| 0 <= k < f.len() implies s.contains(#[trigger] f[k]) by {
            if k < f0.len() {
                assert(f[k] == f0[k]);
                let m = choose|m: int| 0 <= m < s0.len() && s0[m] == f0[k];
                assert(s[m] == s0[m]);
            } else {
                assert(f[k] == last && s[s.len() - 1] == last);
            }
        }
        assert forall|i: int, j: int| 0 <= i < j < f.len() implies !sorts_before(
            mode,
            #[trigger] games[f[j] as int],
            #[trigger] games[f[i] as int],
        ) by {
            if j < f0.len() {
                assert(f[i] == f0[i] && f[j] == f0[j]);
            } else {
                assert(f[j] == last && f[i] == f0[i]);
                let m = choose|m: int| 0 <= m < s0.len() && s0[m] == f0[i];
                assert(s[m] == f0[i] && m < s.len() - 1 && s[s.len() - 1] == last);
            }
        }
    } else {
        reveal(Seq::filter);
    }
}

/// The games the launcher lists are in the order of the sort mode: no game is listed
/// after one it sorts strictly before (in A-Z mode no name after a larger one; in
/// favourites mode no favourite after a game that is not one, and among favourites, or
/// among the others, no game after a less recently played one).
pub proof fn lemma_listing_in_order(
    games: Seq<GameEntry>,
    search: Seq<char>,
    favorites_only: bool,
    mode: GameSortMode,
)
    ensures
        in_order(games, mode, listed_games(games, search, favorites_only, mode)),
{
    lemma_sorted_in_order(games, mode, games.len());
    lemma_filter_keeps_in_order(
        games,
        mode,
        sorted_indices(games, mode, games.len()),
        listed_pred(games, search, favorites_only),
    );
}

proof fn lemma_sorted_in_order(games: Seq<GameEntry>, mode: GameSortMode, n: nat)
    ensures
        in_order(games, mode, sorted_indices(games, mode, n)),
    decreases n,
{
    if n > 0 {
        lemma_sorted_in_order(games, mode, (n - 1) as nat);
        lemma_insert_keeps_in_order(games, mode, sorted_indices(games, mode, (n - 1) as nat), (n - 1) as usize);
    }
}

fn lower_chars(s: &[char]) -> (r: Vec<char>)
    ensures
        r@ == lower(s@),
{
    let mut out: Vec<char> = Vec::new();
    let mut i: usize = 0;
    while i < s.len()
        invariant
            i <= s@.len(),
            out@ == lower(s@.subrange(0, i as int)),
        decreases s@.len() - i,
    {
        out.push(to_ascii_lower(s[i]));
        i = i + 1;
        assert(lower(s@.subrange(0, i as int)) =~= lower(s@.subrange(0, i - 1)).push(ascii_lower(s@[i - 1])));
    }
    assert(s@.subrange(0, s@.len() as int) =~= s@);
    out
}

fn chars_lt(a: &[char], b: &[char]) -> (r: bool)
    ensures
        r == seq_lt(a@, b@),
{
    let mut i: usize = 0;
    assert(a@.subrange(0, a@.len() as int) =~= a@);
    assert(b@.subrange(0, b@.len() as int) =~= b@);
    while i < a.len() && i < b.len()
        invariant
            i <= a@.len(),
            i <= b@.len(),
            seq_lt(a@, b@) == seq_lt(a@.subrange(i as int, a@.len() as int), b@.subrange(i as int, b@.len() as int)),
        decreases a@.len() - i,
    {
        let ghost sa = a@.subrange(i as int, a@.len() as int);
        let ghost sb = b@.subrange(i as int, b@.len() as int);
        if (a[i] as u32) != (b[i] as u32) {
            return (a[i] as u32) < (b[i] as u32);
        }
        assert(sa.drop_first() =~= a@.subrange(i + 1, a@.len() as int));
        assert(sb.drop_first() =~= b@.subrange(i + 1, b@.len() as int));
        i = i + 1;
    }
    i < b.len()
}

fn name_key_of(e: &GameEntry) -> (r: Vec<char>)
    ensures
        r@ == name_key(*e),
{
    match &e.file_name {
        Some(n) => {
            let c = chars_of(n.as_str());
            lower_chars(c.as_slice())
        },
        None => Vec::new(),
    }
}

fn before(mode: GameSortMode, x: &GameEntry, y: &GameEntry, kx: &[char], ky: &[char]) -> (r: bool)
    requires
        kx@ == name_key(*x),
        ky@ == name_key(*y),
    ensures
        r == sorts_before(mode, *x, *y),
{
    match mode {
        GameSortMode::Recent => false,
        GameSortMode::AtoZ => chars_lt(kx, ky),
        GameSortMode::Favorites => {
            let lx = match x.last_played_unix_secs {
                Some(t) => t,
                None => 0,
            };
            let ly = match y.last_played_unix_secs {
                Some(t) => t,
                None => 0,
            };
            (x.favorite && !y.favorite) || (x.favorite == y.favorite && lx > ly)
        },
    }
}

/// `sorted_indices` for the whole list.
fn sort_indices(games: &[GameEntry], mode: GameSortMode) -> (r: Vec<usize>)
    ensures
        r@ == sorted_indices(games@, mode, games@.len()),
        forall|k: int| 0 <= k < r@.len() ==> r@[k] < games@.len(),
{
    let n = games.len();
    let mut keys: Vec<Vec<char>> = Vec::new();
    let mut i: usize = 0;
    while i < n
        invariant
            n == games@.len(),
            i <= n,
            keys@.len() == i,
            forall|k: int| 0 <= k < i ==> (#[trigger] keys@[k])@ == name_key(games@[k]),
        decreases n - i,
    {
        keys.push(name_key_of(&games[i]));
        i = i + 1;
    }
    let mut order: Vec<usize> = Vec::new();
    let mut i: usize = 0;
    while i < n
        invariant
            n == games@.len(),
            i <= n,
            keys@.len() == n,
            forall|k: int| 0 <= k < n ==> (#[trigger] keys@[k])@ == name_key(games@[k]),
            order@ == sorted_indices(games@, mode, i as nat),
            forall|k: int| 0 <= k < order@.len() ==> order@[k] < i,
        decreases n - i,
    {
        let ghost s = order@;
        let mut j: usize = order.len();
        assert(s.subrange(0, s.len() as int) =~= s);
        assert(s.subrange(s.len() as int, s.len() as int) + Seq::<usize>::empty() =~= s.subrange(
            s.len() as int,
            s.len() as int,
        ));
        assert(insert_stable(games@, mode, s, i) + s.subrange(s.len() as int, s.len() as int)
            =~= insert_stable(games@, mode, s, i));
        while j > 0 && before(mode, &games[i], &games[order[j - 1]], keys[i].as_slice(), keys[order[j - 1]].as_slice())
            invariant
                n == games@.len(),
                i < n,
                keys@.len() == n,
                forall|k: int| 0 <= k < n ==> (#[trigger] keys@[k])@ == name_key(games@[k]),
                order@ == s,
                forall|k: int| 0 <= k < s.len() ==> s[k] < i,
                j <= s.len(),
                insert_stable(games@, mode, s, i) == insert_stable(games@, mode, s.subrange(0, j as int), i)
                    + s.subrange(j as int, s.len() as int),
            decreases j,
        {
            let ghost a = s.subrange(0, j as int);
            assert(a.drop_last() =~= s.subrange(0, j - 1));
            assert(s.subrange(j - 1, s.len() as int) =~= seq![a.last()] + s.subrange(j as int, s.len() as int));
            assert(insert_stable(games@, mode, a, i) == insert_stable(games@, mode, a.drop_last(), i).push(a.last()));
            assert(insert_stable(games@, mode, a.drop_last(), i).push(a.last()) + s.subrange(j as int, s.len() as int)
                =~= insert_stable(games@, mode, s.subrange(0, j - 1), i) + s.subrange(j - 1, s.len() as int));
            j = j - 1;
        }
        proof {
            let a = s.subrange(0, j as int);
            assert(insert_stable(games@, mode, a, i) =~= a.push(i));
            assert(a.push(i) + s.subrange(j as int, s.len() as int) =~= s.insert(j as int, i));
        }
        order.insert(j, i);
        i = i + 1;
    }
    order
}

/// The games of the launcher list that `search` and `favorites_only` leave, in the order of
/// `mode`, as indices into `games`.
pub fn library_order(
    games: &[GameEntry],
    search: &str,
    favorites_only: bool,
    mode: GameSortMode,
) -> (r: Vec<usize>)
    ensures
        r@ == listed_games(games@, search@, favorites_only, mode),
{
    let order = sort_indices(games, mode);
    let s = chars_of(search);
    let (lo, hi) = trim_range(s.as_slice(), 0, s.len());
    assert(s@.subrange(0, s@.len() as int) =~= s@);
    let mut trimmed: Vec<char> = Vec::new();
    let mut k: usize = lo;
    while k < hi
        invariant
            lo <= k <= hi <= s@.len(),
            trimmed@ == s@.subrange(lo as int, k as int),
        decreases hi - k,
    {
        trimmed.push(s[k]);
        k = k + 1;
        assert(s@.subrange(lo as int, k as int) =~= s@.subrange(lo as int, k - 1).push(s@[k - 1]));
    }
    let term = lower_chars(trimmed.as_slice());
    assert(term@ == lower(trim_ws(search@)));
    let mut out: Vec<usize> = Vec::new();
    let mut i: usize = 0;
    while i < order.len()
        invariant
            i <= order@.len(),
            order@ == sorted_indices(games@, mode, games@.len()),
            forall|k: int| 0 <= k < order@.len() ==> order@[k] < games@.len(),
            term@ == lower(trim_ws(search@)),
            out@ == order@.subrange(0, i as int).filter(listed_pred(games@, search@, favorites_only)),
        decreases order@.len() - i,
    {
        let g = &games[order[i]];
        let mut keep = !favorites_only || g.favorite;
        if keep && term.len() > 0 {
            let stem: Option<&str> = match &g.file_stem {
                Some(st) => Some(st.as_str()),
                None => None,
            };
            let name = display_game_name(stem, 128);
            let mut hay: Vec<char> = chars_of(name.as_str());
            hay.push(' ');
            let file_name = match &g.file_name {
                Some(n) => chars_of(n.as_str()),
                None => chars_of("<invalid file name>"),
            };
            let mut t: usize = 0;
            let ghost base = hay@;
            while t < file_name.len()
                invariant
                    t <= file_name@.len(),
                    hay@ == base + file_name@.subrange(0, t as int),
                decreases file_name@.len() - t,
            {
                hay.push(file_name[t]);
                t = t + 1;
                assert(file_name@.subrange(0, t as int) =~= file_name@.subrange(0, t - 1).push(file_name@[t - 1]));
            }
            assert(file_name@.subrange(0, file_name@.len() as int) =~= file_name@);
            let low = lower_chars(hay.as_slice());
            proof {
                reveal_strlit(" ");
                assert(base =~= name@ + " "@);
                assert(low@ == haystack(*g));
            }
            keep = contains_chars(low.as_slice(), term.as_slice());
        }
        proof {
            let p = listed_pred(games@, search@, favorites_only);
            assert(keep == p(order@[i as int]));
            order@.subrange(0, i as int).lemma_filter_push(order@[i as int], p);
            assert(order@.subrange(0, i + 1) =~= order@.subrange(0, i as int).push(order@[i as int]));
        }
        if keep {
            out.push(order[i]);
        }
        i = i + 1;
    }
    assert(order@.subrange(0, order@.len() as int) =~= order@);
    out
}

} // verus!
