//! Statistics over played rounds: how many were played and won, how many
//! guesses the wins took, and the most used words, optionally together with
//! the rounds saved in a state file.
use vstd::prelude::*;
use crate::counts::{WordCounts, count_of, outranks, ranked, distinct_keys};
use crate::text::{spec_uppercase, uppercase};

verus! {

/// A round saved in the state file.
pub struct SavedGame {
    pub answer: Option<String>,
    pub guesses: Option<Vec<String>>,
}

/// The state file: the number of rounds and the saved rounds.
pub struct SavedState {
    pub total_rounds: Option<i32>,
    pub games: Option<Vec<SavedGame>>,
}

/// What the statistics show.
pub struct Summary {
    /// Rounds won.
    pub success: i32,
    /// Rounds played.
    pub played: i32,
    /// Guesses taken by the won rounds (the average is this over `success`).
    pub success_rounds: i32,
    /// Up to five most used words with their counts, best first.
    pub top: Vec<(String, i32)>,
}

/// Counters of the rounds played in this session.
pub struct Tally {
    pub played: i32,
    pub success: i32,
    pub success_rounds: i32,
}

/// The words guessed in a saved round.
pub open spec fn saved_guesses(g: SavedGame) -> Seq<Seq<char>> {
    match g.guesses {
        Some(v) => v@.map_values(|s: String| s@),
        None => Seq::empty(),
    }
}

/// The saved rounds that take part: all of them when asked for, else none.
pub open spec fn saved_games(saved: SavedState, with_saved: bool) -> Seq<SavedGame> {
    if with_saved {
        match saved.games {
            Some(v) => v@,
            None => Seq::empty(),
        }
    } else {
        Seq::empty()
    }
}

/// Number of guesses over the saved rounds.
pub open spec fn guess_total(games: Seq<SavedGame>) -> int
    decreases games.len(),
{
    if games.len() == 0 {
        0
    } else {
        guess_total(games.drop_last()) + saved_guesses(games.last()).len()
    }
}

/// A saved round was won when it has an answer and its last guess is that
/// answer, letters compared in upper case.
pub open spec fn saved_won(g: SavedGame) -> bool {
    &&& g.guesses matches Some(v)
    &&& g.answer matches Some(a)
    &&& v@.len() > 0
    &&& spec_uppercase(v@.last()@) == spec_uppercase(a@)
}

/// Number of saved rounds that were won.
pub open spec fn won_total(games: Seq<SavedGame>) -> int
    decreases games.len(),
{
    if games.len() == 0 {
        0
    } else {
        won_total(games.drop_last()) + (if saved_won(games.last()) {
            1int
        } else {
            0int
        })
    }
}

/// Number of guesses over the saved rounds that were won.
pub open spec fn won_guess_total(games: Seq<SavedGame>) -> int
    decreases games.len(),
{
    if games.len() == 0 {
        0
    } else {
        won_guess_total(games.drop_last()) + (if saved_won(games.last()) {
            saved_guesses(games.last()).len() as int
        } else {
            0int
        })
    }
}

/// `m` with one more use of each word of `ws`.
pub open spec fn add_words(m: Map<Seq<char>, int>, ws: Seq<Seq<char>>) -> Map<Seq<char>, int>
    decreases ws.len(),
{
    if ws.len() == 0 {
        m
    } else {
        let p = add_words(m, ws.drop_last());
        p.insert(ws.last(), count_of(p, ws.last()) + 1)
    }
}

/// `m` with one more use of each word guessed in the saved rounds.
pub open spec fn add_games(m: Map<Seq<char>, int>, games: Seq<SavedGame>) -> Map<Seq<char>, int>
    decreases games.len(),
{
    if games.len() == 0 {
        m
    } else {
        add_words(add_games(m, games.drop_last()), saved_guesses(games.last()))
    }
}

/// The counts with every word in upper case; words that become equal add up.
pub open spec fn upper_merge(s: Seq<(String, i32)>) -> Map<Seq<char>, int>
    decreases s.len(),
{
    if s.len() == 0 {
        Map::empty()
    } else {
        let p = upper_merge(s.drop_last());
        let u = spec_uppercase(s.last().0@);
        p.insert(u, count_of(p, u) + s.last().1)
    }
}

/// The counts that the statistics rank.
pub open spec fn summary_counts(counts: WordCounts, with_saved: bool, saved: SavedState) -> Map<Seq<char>, int> {
    add_games(upper_merge(counts.entries()), saved_games(saved, with_saved))
}

/// Number of times `w` occurs in `ws`.
pub open spec fn occurrences(ws: Seq<Seq<char>>, w: Seq<char>) -> int
    decreases ws.len(),
{
    if ws.len() == 0 {
        0
    } else {
        occurrences(ws.drop_last(), w) + (if ws.last() == w {
            1int
        } else {
            0int
        })
    }
}

/// Number of times `w` was guessed in the saved rounds.
pub open spec fn saved_occurrences(games: Seq<SavedGame>, w: Seq<char>) -> int
    decreases games.len(),
{
    if games.len() == 0 {
        0
    } else {
        saved_occurrences(games.drop_last(), w) + occurrences(saved_guesses(games.last()), w)
    }
}

/// The counters stay within `i32`: the rounds played, won and the guesses
/// of the won rounds, with the saved rounds added, and the count of every
/// word that the statistics rank. The number of saved rounds fits in an
/// `i32` too.
pub open spec fn summary_fits(success: i32, played: i32, success_rounds: i32, counts: WordCounts, with_saved: bool, saved: SavedState) -> bool {
    let games = saved_games(saved, with_saved);
    let m = summary_counts(counts, with_saved, saved);
    &&& games.len() <= i32::MAX
    &&& played + games.len() <= i32::MAX
    &&& success + won_total(games) <= i32::MAX
    &&& success_rounds + won_guess_total(games) <= i32::MAX
    &&& forall|w: Seq<char>| #[trigger] count_of(m, w) <= i32::MAX
}

proof fn lemma_guess_total_nonneg(games: Seq<SavedGame>)
    ensures
        guess_total(games) >= 0,
        0 <= won_total(games) <= games.len(),
        0 <= won_guess_total(games) <= guess_total(games),
    decreases games.len(),
{
    if games.len() > 0 {
        lemma_guess_total_nonneg(games.drop_last());
    }
}

proof fn lemma_occurrences_nonneg(ws: Seq<Seq<char>>, w: Seq<char>)
    ensures
        occurrences(ws, w) >= 0,
    decreases ws.len(),
{
    if ws.len() > 0 {
        lemma_occurrences_nonneg(ws.drop_last(), w);
    }
}

proof fn lemma_saved_occurrences_nonneg(games: Seq<SavedGame>, w: Seq<char>)
    ensures
        saved_occurrences(games, w) >= 0,
    decreases games.len(),
{
    if games.len() > 0 {
        lemma_saved_occurrences_nonneg(games.drop_last(), w);
        lemma_occurrences_nonneg(saved_guesses(games.last()), w);
    }
}

proof fn lemma_occurrences_prefix(ws: Seq<Seq<char>>, j: int, w: Seq<char>)
    requires
        0 <= j < ws.len(),
    ensures
        occurrences(ws.take(j + 1), w) == occurrences(ws.take(j), w) + (if ws[j] == w {
            1int
        } else {
            0int
        }),
        occurrences(ws.take(j + 1), w) <= occurrences(ws, w),
    decreases ws.len() - j,
{
    assert(ws.take(j + 1).drop_last() =~= ws.take(j));
    if j + 1 < ws.len() {
        lemma_occurrences_prefix(ws, j + 1, w);
    } else {
        assert(ws.take(j + 1) =~= ws);
    }
}

proof fn lemma_saved_occurrences_prefix(games: Seq<SavedGame>, i: int, w: Seq<char>)
    requires
        0 <= i < games.len(),
    ensures
        saved_occurrences(games.take(i + 1), w) == saved_occurrences(games.take(i), w)
            + occurrences(saved_guesses(games[i]), w),
        saved_occurrences(games.take(i + 1), w) <= saved_occurrences(games, w),
    decreases games.len() - i,
{
    assert(games.take(i + 1).drop_last() =~= games.take(i));
    if i + 1 < games.len() {
        lemma_saved_occurrences_prefix(games, i + 1, w);
        lemma_occurrences_nonneg(saved_guesses(games[i + 1]), w);
    } else {
        assert(games.take(i + 1) =~= games);
    }
}

proof fn lemma_add_words_count(m: Map<Seq<char>, int>, ws: Seq<Seq<char>>, w: Seq<char>)
    ensures
        count_of(add_words(m, ws), w) == count_of(m, w) + occurrences(ws, w),
    decreases ws.len(),
{
    if ws.len() > 0 {
        lemma_add_words_count(m, ws.drop_last(), w);
    }
}

proof fn lemma_add_games_count(m: Map<Seq<char>, int>, games: Seq<SavedGame>, w: Seq<char>)
    ensures
        count_of(add_games(m, games), w) == count_of(m, w) + saved_occurrences(games, w),
    decreases games.len(),
{
    if games.len() > 0 {
        lemma_add_games_count(m, games.drop_last(), w);
        lemma_add_words_count(add_games(m, games.drop_last()), saved_guesses(games.last()), w);
    }
}

proof fn lemma_upper_merge_prefix(s: Seq<(String, i32)>, i: int, w: Seq<char>)
    requires
        0 <= i <= s.len(),
        forall|j: int| 0 <= j < s.len() ==> #[trigger] s[j].1 >= 0,
    ensures
        count_of(upper_merge(s.take(i)), w) <= count_of(upper_merge(s), w),
    decreases s.len(),
{
    if i < s.len() {
        let t = s.drop_last();
        assert(s.take(i) =~= t.take(i));
        assert(forall|j: int| 0 <= j < t.len() ==> #[trigger] t[j] == s[j]);
        lemma_upper_merge_prefix(t, i, w);
        assert(s.last().1 >= 0);
    } else {
        assert(s.take(i) =~= s);
    }
}

/// The session's counts merged by upper-case word; `None` when a merged
/// count would not fit in an `i32`.
fn merge_upper(counts: &WordCounts) -> (r: Option<WordCounts>)
    requires
        counts.wf(),
    ensures
        r matches Some(m) ==> m.wf() && m@ == upper_merge(counts.entries()),
        r is None ==> exists|w: Seq<char>| count_of(upper_merge(counts.entries()), w) > i32::MAX,
{
    proof {
        counts.lemma_entries();
    }
    let all = counts.entries_vec();
    let mut r = WordCounts::new();
    let mut i: usize = 0;
    while i < all.len()
        invariant
            all@ == counts.entries(),
            forall|j: int| 0 <= j < all@.len() ==> #[trigger] all@[j].1 >= 0,
            i <= all.len(),
            r.wf(),
            r@ == upper_merge(all@.take(i as int)),
        decreases all.len() - i,
    {
        proof {
            assert(all@.take(i + 1).drop_last() =~= all@.take(i as int));
        }
        let u = uppercase(all[i].0.as_str());
        let c = r.get(&u);
        if c as i64 + all[i].1 as i64 > 0x7fff_ffff {
            proof {
                lemma_upper_merge_prefix(all@, i + 1, u@);
                assert(count_of(upper_merge(counts.entries()), u@) > i32::MAX);
            }
            return None;
        }
        r.add(&u, all[i].1);
        i = i + 1;
    }
    assert(all@.take(all@.len() as int) =~= all@);
    Some(r)
}

/// `m` with one more use of each word guessed in the saved rounds `list`;
/// `None` when a count would not fit in an `i32`.
fn add_saved_words(counts: WordCounts, list: &Vec<SavedGame>) -> (r: Option<WordCounts>)
    requires
        counts.wf(),
    ensures
        r matches Some(x) ==> x.wf() && x@ == add_games(counts@, list@),
        r is None ==> exists|w: Seq<char>| count_of(counts@, w) + saved_occurrences(list@, w) > i32::MAX,
{
    let ghost start = counts@;
    let mut m = counts;
    let mut k: usize = 0;
    while k < list.len()
        invariant
            k <= list.len(),
            m.wf(),
            m@ == add_games(start, list@.take(k as int)),
            start == counts@,
        decreases list.len() - k,
    {
        proof {
            assert(list@.take(k + 1).drop_last() =~= list@.take(k as int));
        }
        match &list[k].guesses {
            Some(ws) => {
                let ghost vs = ws@.map_values(|s: String| s@);
                let ghost before = m@;
                let mut j: usize = 0;
                while j < ws.len()
                    invariant
                        j <= ws.len(),
                        m.wf(),
                        vs == ws@.map_values(|s: String| s@),
                        m@ == add_words(before, vs.take(j as int)),
                        before == add_games(start, list@.take(k as int)),
                        k < list.len(),
                        saved_guesses(list@[k as int]) == vs,
                        start == counts@,
                    decreases ws.len() - j,
                {
                    proof {
                        assert(vs.take(j + 1).drop_last() =~= vs.take(j as int));
                    }
                    let c = m.get(&ws[j]);
                    if c == 0x7fff_ffff {
                        proof {
                            let x = ws@[j as int]@;
                            assert(vs[j as int] == x);
                            lemma_add_words_count(before, vs.take(j as int), x);
                            lemma_add_games_count(start, list@.take(k as int), x);
                            lemma_occurrences_prefix(vs, j as int, x);
                            lemma_saved_occurrences_prefix(list@, k as int, x);
                            assert(count_of(start, x) + saved_occurrences(list@, x) > i32::MAX);
                            assert(exists|w: Seq<char>| count_of(start, w) + saved_occurrences(list@, w) > i32::MAX);
                        }
                        return None;
                    }
                    m.increment(&ws[j]);
                    j = j + 1;
                }
                proof {
                    assert(vs.take(ws.len() as int) =~= vs);
                }
            },
            None => {},
        }
        k = k + 1;
    }
    assert(list@.take(list@.len() as int) =~= list@);
    Some(m)
}

/// Whether a saved round was won: it has an answer and guesses, and its last
/// guess is the answer once both are put in upper case.
pub fn saved_game_won(g: &SavedGame) -> (r: bool)
    ensures
        r == saved_won(*g),
{
    match (&g.guesses, &g.answer) {
        (Some(v), Some(a)) => {
            if v.len() == 0 {
                false
            } else {
                let last = uppercase(v[v.len() - 1].as_str());
                let answer = uppercase(a.as_str());
                last == answer
            }
        },
        _ => false,
    }
}

/// The number of saved rounds in `list` that were won, and the number of
/// their guesses.
fn saved_wins(list: &Vec<SavedGame>) -> (r: (u64, u128))
    ensures
        r.0 == won_total(list@),
        r.1 == won_guess_total(list@),
        r.0 <= list.len(),
        r.1 <= list.len() * 0x1_0000_0000_0000_0000,
{
    let mut wins: u64 = 0;
    let mut guesses: u128 = 0;
    let mut k: usize = 0;
    while k < list.len()
        invariant
            k <= list.len(),
            wins == won_total(list@.take(k as int)),
            guesses == won_guess_total(list@.take(k as int)),
            wins <= k,
            guesses <= k * 0x1_0000_0000_0000_0000,
        decreases list.len() - k,
    {
        proof {
            assert(list@.take(k + 1).drop_last() =~= list@.take(k as int));
        }
        if saved_game_won(&list[k]) {
            match &list[k].guesses {
                Some(ws) => {
                    wins = wins + 1;
                    guesses = guesses + ws.len() as u128;
                },
                None => {},
            }
        }
        k = k + 1;
    }
    assert(list@.take(list@.len() as int) =~= list@);
    (wins, guesses)
}

/// The statistics shown after a round: the session's counters and word
/// counts (words merged by upper case), plus the saved rounds when
/// `include_saved` is set and the state file has some. Every saved round adds
/// one to the rounds played and one use to each word it guessed; a saved
/// round that was won (its last guess is its answer) adds one win and its
/// number of guesses to the guesses of won rounds.
pub fn summarize(
    success: i32,
    played: i32,
    success_rounds: i32,
    counts: &WordCounts,
    include_saved: bool,
    saved: &SavedState,
) -> (r: Summary)
    requires
        counts.wf(),
        summary_fits(success, played, success_rounds, *counts, include_saved, *saved),
    ensures
        ({
            let games = saved_games(*saved, include_saved);
            let m = summary_counts(*counts, include_saved, *saved);
            &&& r.played == played + games.len()
            &&& r.success == success + won_total(games)
            &&& r.success_rounds == success_rounds + won_guess_total(games)
            &&& r.top.len() == if m.len() < 5 { m.len() } else { 5 }
            &&& ranked(r.top@)
            &&& distinct_keys(r.top@)
            &&& forall|i: int| 0 <= i < r.top.len() ==> #[trigger] m.dom().contains(r.top@[i].0@) && m[r.top@[i].0@] == r.top@[i].1
            &&& forall|w: Seq<char>|
                #[trigger] m.dom().contains(w) && (forall|i: int| 0 <= i < r.top.len() ==> r.top@[i].0@ != w)
                    ==> forall|i: int| 0 <= i < r.top.len() ==> outranks(#[trigger] r.top@[i].0@, r.top@[i].1 as int, w, m[w])
        }),
{
    let ghost games = saved_games(*saved, include_saved);
    let ghost um = upper_merge(counts.entries());
    let ghost all = summary_counts(*counts, include_saved, *saved);
    proof {
        lemma_guess_total_nonneg(games);
        assert(all == add_games(um, games));
        assert forall|w: Seq<char>| count_of(um, w) + saved_occurrences(games, w) <= i32::MAX by {
            lemma_add_games_count(um, games, w);
            assert(count_of(all, w) <= i32::MAX);
        }
    }
    let merged = match merge_upper(counts) {
        Some(m) => m,
        None => {
            proof {
                let w = choose|w: Seq<char>| count_of(um, w) > i32::MAX;
                lemma_saved_occurrences_nonneg(games, w);
            }
            WordCounts::new()
        },
    };
    let mut played = played;
    let mut success = success;
    let mut success_rounds = success_rounds;
    let mut merged = merged;
    if include_saved {
        match &saved.games {
            Some(list) => {
                assert(games == list@);
                played = played + list.len() as i32;
                let (wins, guesses) = saved_wins(list);
                success = (success as i64 + wins as i64) as i32;
                success_rounds = (success_rounds as i128 + guesses as i128) as i32;
                merged = match add_saved_words(merged, list) {
                    Some(m) => m,
                    None => {
                        proof {
                            let w = choose|w: Seq<char>| count_of(um, w) + saved_occurrences(list@, w) > i32::MAX;
                        }
                        WordCounts::new()
                    },
                };
            },
            None => {},
        }
    }
    assert(merged@ == summary_counts(*counts, include_saved, *saved));
    let top = merged.top(5);
    Summary { success, played, success_rounds, top }
}

/// Whether [`summarize`] can add up these counters without leaving `i32`.
pub fn summary_fits_check(
    success: i32,
    played: i32,
    success_rounds: i32,
    counts: &WordCounts,
    include_saved: bool,
    saved: &SavedState,
) -> (r: bool)
    requires
        counts.wf(),
    ensures
        r == summary_fits(success, played, success_rounds, *counts, include_saved, *saved),
{
    let ghost games = saved_games(*saved, include_saved);
    let ghost um = upper_merge(counts.entries());
    let ghost all = summary_counts(*counts, include_saved, *saved);
    proof {
        lemma_guess_total_nonneg(games);
        assert(all == add_games(um, games));
    }
    let merged = match merge_upper(counts) {
        Some(m) => m,
        None => {
            proof {
                let w = choose|w: Seq<char>| count_of(um, w) > i32::MAX;
                lemma_saved_occurrences_nonneg(games, w);
                lemma_add_games_count(um, games, w);
                assert(count_of(all, w) > i32::MAX);
            }
            return false;
        },
    };
    let mut count: i64 = 0;
    let mut wins: i64 = 0;
    let mut guesses: i128 = 0;
    let mut merged = merged;
    if include_saved {
        match &saved.games {
            Some(list) => {
                assert(games == list@);
                if list.len() > 0x7fff_ffff {
                    return false;
                }
                count = list.len() as i64;
                let (w, g) = saved_wins(list);
                wins = w as i64;
                guesses = g as i128;
                merged = match add_saved_words(merged, list) {
                    Some(m) => m,
                    None => {
                        proof {
                            let x = choose|x: Seq<char>| count_of(um, x) + saved_occurrences(list@, x) > i32::MAX;
                            lemma_add_games_count(um, games, x);
                            assert(count_of(all, x) > i32::MAX);
                        }
                        return false;
                    },
                };
            },
            None => {},
        }
    }
    assert(merged@ == all);
    proof {
        merged.lemma_nonnegative();
        assert forall|w: Seq<char>| #[trigger] count_of(all, w) <= i32::MAX by {
        }
    }
    (played as i64) + count <= 0x7fff_ffff && (success as i64) + wins <= 0x7fff_ffff
        && (success_rounds as i128) + guesses <= 0x7fff_ffff
}

impl SavedState {
    /// An empty state file.
    pub fn new() -> (r: SavedState)
        ensures
            r.total_rounds == Some(0i32),
            r.games matches Some(g) && g@.len() == 0,
    {
        SavedState { total_rounds: Some(0), games: Some(Vec::new()) }
    }

    /// Adds a finished round: one more round, and the round's answer and
    /// guesses after the saved ones.
    pub fn record_game(&mut self, answer: String, guesses: Vec<String>)
        requires
            old(self).total_rounds matches Some(n) ==> n < i32::MAX,
        ensures
            final(self).total_rounds == Some((match old(self).total_rounds {
                Some(n) => n + 1,
                None => 1,
            }) as i32),
            final(self).games matches Some(g) && g@ == (match old(self).games {
                Some(v) => v@,
                None => Seq::empty(),
            }).push(SavedGame { answer: Some(answer), guesses: Some(guesses) }),
    {
        let n = match self.total_rounds {
            Some(n) => n + 1,
            None => 1,
        };
        self.total_rounds = Some(n);
        let game = SavedGame { answer: Some(answer), guesses: Some(guesses) };
        match &mut self.games {
            Some(v) => {
                v.push(game);
            },
            None => {
                let mut v = Vec::new();
                v.push(game);
                self.games = Some(v);
            },
        }
    }
}

/// The counters (played, won, guesses of the won rounds) after one more
/// round that took `success` guesses to win (0: lost).
pub open spec fn tally_step(t: (int, int, int), success: i32) -> (int, int, int) {
    (t.0 + 1, t.1 + (if success != 0 { 1int } else { 0int }), t.2 + success)
}

/// The counters after rounds `s`, one after another, from zero.
pub open spec fn tally_over(s: Seq<i32>) -> (int, int, int)
    decreases s.len(),
{
    if s.len() == 0 {
        (0, 0, 0)
    } else {
        tally_step(tally_over(s.drop_last()), s.last())
    }
}

/// Number of won rounds among `s`.
pub open spec fn wins_in(s: Seq<i32>) -> int {
    s.filter(|x: i32| x != 0).len() as int
}

/// Sum of `s`.
pub open spec fn sum_of(s: Seq<i32>) -> int
    decreases s.len(),
{
    if s.len() == 0 {
        0
    } else {
        sum_of(s.drop_last()) + s.last()
    }
}

impl Tally {
    /// No rounds yet.
    pub fn new() -> (r: Tally)
        ensures
            r.played == 0 && r.success == 0 && r.success_rounds == 0,
    {
        Tally { played: 0, success: 0, success_rounds: 0 }
    }

    /// Counts a round that took `success` guesses to win (0: lost).
    pub fn record(&mut self, success: i32)
        requires
            old(self).played < i32::MAX,
            success != 0 ==> old(self).success < i32::MAX && i32::MIN <= old(self).success_rounds + success <= i32::MAX,
        ensures
            (final(self).played as int, final(self).success as int, final(self).success_rounds as int)
                == tally_step((old(self).played as int, old(self).success as int, old(self).success_rounds as int), success),
            final(self).played == old(self).played + 1,
            final(self).success == old(self).success + (if success != 0 { 1int } else { 0int }),
            final(self).success_rounds == old(self).success_rounds + success,
    {
        self.played = self.played + 1;
        if success != 0 {
            self.success = self.success + 1;
            self.success_rounds = self.success_rounds + success;
        }
    }
}

} // verus!
