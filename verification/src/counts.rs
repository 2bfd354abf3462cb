//! How often each word has been guessed, and the ranking of the words by use.
use vstd::prelude::*;
use crate::text::chars_of;

verus! {

/// The map that a list of (word, count) entries stands for.
pub open spec fn entries_map(s: Seq<(String, i32)>) -> Map<Seq<char>, int>
    decreases s.len(),
{
    if s.len() == 0 {
        Map::empty()
    } else {
        entries_map(s.drop_last()).insert(s.last().0@, s.last().1 as int)
    }
}

/// No word occurs twice in the entries.
pub open spec fn distinct_keys(s: Seq<(String, i32)>) -> bool {
    forall|i: int, j: int|
        0 <= i < s.len() && 0 <= j < s.len() && i != j ==> #[trigger] s[i].0@ != #[trigger] s[j].0@
}

/// `a` comes before `b` in character order (the order of `str`).
pub open spec fn lex_lt(a: Seq<char>, b: Seq<char>) -> bool
    decreases a.len(),
{
    if a.len() == 0 {
        b.len() > 0
    } else if b.len() == 0 {
        false
    } else if a[0] != b[0] {
        a[0] < b[0]
    } else {
        lex_lt(a.drop_first(), b.drop_first())
    }
}

/// The ranking: more uses first; equal uses in character order of the words.
pub open spec fn outranks(w1: Seq<char>, c1: int, w2: Seq<char>, c2: int) -> bool {
    c1 > c2 || (c1 == c2 && lex_lt(w1, w2))
}

/// Entry `a` ranks before entry `b`.
pub open spec fn ranks_before(a: (String, i32), b: (String, i32)) -> bool {
    outranks(a.0@, a.1 as int, b.0@, b.1 as int)
}

/// Each entry ranks before every later one.
pub open spec fn ranked(s: Seq<(String, i32)>) -> bool {
    forall|i: int, j: int|
        0 <= i < j < s.len() ==> ranks_before(#[trigger] s[i], #[trigger] s[j])
}

pub proof fn lemma_lex_irreflexive(a: Seq<char>)
    ensures
        !lex_lt(a, a),
    decreases a.len(),
{
    if a.len() > 0 {
        lemma_lex_irreflexive(a.drop_first());
    }
}

pub proof fn lemma_lex_asymmetric(a: Seq<char>, b: Seq<char>)
    ensures
        !(lex_lt(a, b) && lex_lt(b, a)),
    decreases a.len(),
{
    if a.len() > 0 && b.len() > 0 && a[0] == b[0] {
        lemma_lex_asymmetric(a.drop_first(), b.drop_first());
    }
}

pub proof fn lemma_lex_transitive(a: Seq<char>, b: Seq<char>, c: Seq<char>)
    requires
        lex_lt(a, b),
        lex_lt(b, c),
    ensures
        lex_lt(a, c),
    decreases a.len(),
{
    if a.len() > 0 && b.len() > 0 && c.len() > 0 && a[0] == b[0] && b[0] == c[0] {
        lemma_lex_transitive(a.drop_first(), b.drop_first(), c.drop_first());
    }
}

pub proof fn lemma_lex_total(a: Seq<char>, b: Seq<char>)
    requires
        a != b,
    ensures
        lex_lt(a, b) || lex_lt(b, a),
    decreases a.len(),
{
    if a.len() > 0 && b.len() > 0 && a[0] == b[0] {
        if a.drop_first() == b.drop_first() {
            assert(a =~= seq![a[0]] + a.drop_first());
            assert(b =~= seq![b[0]] + b.drop_first());
        }
        lemma_lex_total(a.drop_first(), b.drop_first());
    } else if a.len() == 0 && b.len() == 0 {
        assert(a =~= b);
    }
}

/// The entries' words are exactly the map's domain, with their counts.
pub proof fn lemma_entries_map(s: Seq<(String, i32)>)
    requires
        distinct_keys(s),
    ensures
        forall|i: int|
            0 <= i < s.len() ==> #[trigger] entries_map(s).dom().contains(s[i].0@) && entries_map(
                s,
            )[s[i].0@] == s[i].1 as int,
        forall|k: Seq<char>|
            #[trigger] entries_map(s).dom().contains(k) ==> exists|i: int|
                0 <= i < s.len() && #[trigger] s[i].0@ == k,
    decreases s.len(),
{
    if s.len() > 0 {
        let t = s.drop_last();
        assert(distinct_keys(t));
        lemma_entries_map(t);
        assert forall|k: Seq<char>| #[trigger] entries_map(s).dom().contains(k) implies exists|i: int|
            0 <= i < s.len() && #[trigger] s[i].0@ == k by {
            if k != s.last().0@ {
                assert(entries_map(t).dom().contains(k));
                let i = choose|i: int| 0 <= i < t.len() && #[trigger] t[i].0@ == k;
                assert(s[i].0@ == k);
            } else {
                assert(s[s.len() - 1].0@ == k);
            }
        }
        assert forall|i: int| 0 <= i < s.len() implies #[trigger] entries_map(s).dom().contains(
            s[i].0@,
        ) && entries_map(s)[s[i].0@] == s[i].1 as int by {
            if i < s.len() - 1 {
                assert(t[i] == s[i]);
                assert(entries_map(t).dom().contains(t[i].0@));
                assert(s[i].0@ != s[s.len() - 1].0@);
            }
        }
    }
}

/// Two duplicate-free lists with the same entries stand for the same map.
pub proof fn lemma_same_entries(s: Seq<(String, i32)>, t: Seq<(String, i32)>)
    requires
        distinct_keys(s),
        distinct_keys(t),
        covers(s, t),
    ensures
        entries_map(s) == entries_map(t),
{
    lemma_entries_map(s);
    lemma_entries_map(t);
    assert forall|k: Seq<char>| entries_map(s).dom().contains(k) implies entries_map(t).dom().contains(k)
        && entries_map(t)[k] == entries_map(s)[k] by {
        let i = choose|i: int| 0 <= i < s.len() && #[trigger] s[i].0@ == k;
        let j = choose|j: int| 0 <= j < t.len() && #[trigger] t[j] == s[i];
        assert(t[j].0@ == k);
    }
    assert forall|k: Seq<char>| entries_map(t).dom().contains(k) implies entries_map(s).dom().contains(k) by {
        let j = choose|j: int| 0 <= j < t.len() && #[trigger] t[j].0@ == k;
        let i = choose|i: int| 0 <= i < s.len() && #[trigger] s[i] == t[j];
        assert(s[i].0@ == k);
    }
    assert(entries_map(s) =~= entries_map(t));
}

/// Whether `a` comes before `b` in character order.
pub fn lex_less(a: &Vec<char>, b: &Vec<char>) -> (r: bool)
    ensures
        r == lex_lt(a@, b@),
{
    let mut i: usize = 0;
    assert(a@.skip(0) =~= a@);
    assert(b@.skip(0) =~= b@);
    while i < a.len() && i < b.len() && a[i] == b[i]
        invariant
            i <= a.len(),
            i <= b.len(),
            lex_lt(a@, b@) == lex_lt(a@.skip(i as int), b@.skip(i as int)),
        decreases a.len() - i,
    {
        proof {
            let x = a@.skip(i as int);
            let y = b@.skip(i as int);
            assert(x.drop_first() =~= a@.skip(i + 1));
            assert(y.drop_first() =~= b@.skip(i + 1));
        }
        i = i + 1;
    }
    if i == a.len() {
        i < b.len()
    } else if i == b.len() {
        false
    } else {
        a[i] < b[i]
    }
}

/// How many times each word was used.
#[derive(Debug)]
pub struct WordCounts {
    entries: Vec<(String, i32)>,
}

impl View for WordCounts {
    type V = Map<Seq<char>, int>;

    closed spec fn view(&self) -> Map<Seq<char>, int> {
        entries_map(self.entries@)
    }
}

/// The count of `w` in `m`, zero when absent.
pub open spec fn count_of(m: Map<Seq<char>, int>, w: Seq<char>) -> int {
    if m.dom().contains(w) {
        m[w]
    } else {
        0
    }
}

impl WordCounts {
    /// The entries hold no word twice and no negative count.
    pub closed spec fn wf(&self) -> bool {
        &&& distinct_keys(self.entries@)
        &&& forall|i: int| 0 <= i < self.entries@.len() ==> #[trigger] self.entries@[i].1 >= 0
    }

    /// The entries behind the map, in the order they were first counted.
    pub closed spec fn entries(&self) -> Seq<(String, i32)> {
        self.entries@
    }

    /// The entries stand for the map.
    pub proof fn lemma_entries(&self)
        requires
            self.wf(),
        ensures
            entries_map(self.entries()) == self@,
            distinct_keys(self.entries()),
            forall|i: int| 0 <= i < self.entries().len() ==> #[trigger] self.entries()[i].1 >= 0,
    {
    }

    /// A copy of the entries, in the order they were first counted.
    pub fn entries_vec(&self) -> (r: Vec<(String, i32)>)
        ensures
            r@ == self.entries(),
    {
        let mut r: Vec<(String, i32)> = Vec::new();
        let mut i: usize = 0;
        while i < self.entries.len()
            invariant
                i <= self.entries.len(),
                r@ == self.entries@.take(i as int),
            decreases self.entries.len() - i,
        {
            r.push((self.entries[i].0.clone(), self.entries[i].1));
            i = i + 1;
            assert(r@ =~= self.entries@.take(i as int));
        }
        assert(self.entries@.take(self.entries@.len() as int) =~= self.entries@);
        r
    }

    /// No word used yet.
    pub fn new() -> (r: WordCounts)
        ensures
            r.wf(),
            r@ == Map::<Seq<char>, int>::empty(),
            r.entries() == Seq::<(String, i32)>::empty(),
    {
        WordCounts { entries: Vec::new() }
    }

    /// Every count is at least zero and fits in an `i32`.
    pub proof fn lemma_nonnegative(&self)
        requires
            self.wf(),
        ensures
            forall|w: Seq<char>| #[trigger] self@.dom().contains(w) ==> 0 <= self@[w] <= i32::MAX,
            self@.dom().finite(),
    {
        lemma_entries_map(self.entries@);
        assert forall|w: Seq<char>| #[trigger] self@.dom().contains(w) implies 0 <= self@[w] <= i32::MAX by {
            let i = choose|i: int| 0 <= i < self.entries@.len() && #[trigger] self.entries@[i].0@ == w;
        }
        lemma_finite(self.entries@);
    }

    fn find(&self, w: &String) -> (r: Option<usize>)
        requires
            self.wf(),
        ensures
            r matches Some(i) ==> i < self.entries.len() && self.entries@[i as int].0@ == w@,
            r is None ==> forall|i: int|
                0 <= i < self.entries@.len() ==> #[trigger] self.entries@[i].0@ != w@,
    {
        let mut i: usize = 0;
        while i < self.entries.len()
            invariant
                i <= self.entries.len(),
                forall|j: int| 0 <= j < i ==> #[trigger] self.entries@[j].0@ != w@,
            decreases self.entries.len() - i,
        {
            if self.entries[i].0 == *w {
                return Some(i);
            }
            i = i + 1;
        }
        None
    }

    /// How many times `w` was used.
    pub fn get(&self, w: &String) -> (r: i32)
        requires
            self.wf(),
        ensures
            r == count_of(self@, w@),
    {
        proof {
            lemma_entries_map(self.entries@);
        }
        match self.find(w) {
            Some(i) => self.entries[i].1,
            None => 0,
        }
    }

    /// Counts one more use of `w`.
    pub fn increment(&mut self, w: &String)
        requires
            old(self).wf(),
            count_of(old(self)@, w@) < i32::MAX,
        ensures
            final(self).wf(),
            final(self)@ == old(self)@.insert(w@, count_of(old(self)@, w@) + 1),
            total(final(self).entries()) == total(old(self).entries()) + 1,
    {
        self.add(w, 1);
    }

    /// Counts `k` more uses of `w`.
    pub fn add(&mut self, w: &String, k: i32)
        requires
            old(self).wf(),
            k >= 0,
            count_of(old(self)@, w@) + k <= i32::MAX,
        ensures
            final(self).wf(),
            final(self)@ == old(self)@.insert(w@, count_of(old(self)@, w@) + k),
            total(final(self).entries()) == total(old(self).entries()) + k,
    {
        proof {
            lemma_entries_map(self.entries@);
        }
        let ghost before = self.entries@;
        match self.find(w) {
            Some(i) => {
                let n = self.entries[i].1;
                let key = self.entries[i].0.clone();
                self.entries.set(i, (key, n + k));
                proof {
                    let after = self.entries@;
                    assert(distinct_keys(after));
                    lemma_entries_map(after);
                    assert forall|x: Seq<char>| #[trigger] entries_map(after).dom().contains(x) implies entries_map(
                        before,
                    ).insert(w@, n + k).dom().contains(x) by {
                        let j = choose|j: int| 0 <= j < after.len() && #[trigger] after[j].0@ == x;
                        if j != i {
                            assert(before[j] == after[j]);
                            assert(entries_map(before).dom().contains(before[j].0@));
                        }
                    }
                    assert forall|x: Seq<char>| #[trigger] entries_map(before).insert(w@, n + k).dom().contains(
                        x,
                    ) implies entries_map(after).dom().contains(x) && entries_map(after)[x]
                        == entries_map(before).insert(w@, n + k)[x] by {
                        if x != w@ {
                            let j = choose|j: int| 0 <= j < before.len() && #[trigger] before[j].0@ == x;
                            assert(j != i);
                            assert(before[j] == after[j]);
                            assert(entries_map(after).dom().contains(after[j].0@));
                            assert(entries_map(before).dom().contains(before[j].0@));
                        } else {
                            assert(after[i as int].0@ == x);
                            assert(entries_map(after).dom().contains(after[i as int].0@));
                            assert(after[i as int].1 == n + k);
                        }
                    }
                    assert(entries_map(after).dom() =~= entries_map(before).insert(w@, n + k).dom());
                    assert(entries_map(after) =~= entries_map(before).insert(w@, n + k));
                    lemma_total_update(before, i as int, self.entries@[i as int]);
                }
            },
            None => {
                self.entries.push((w.clone(), k));
                proof {
                    assert(self.entries@.drop_last() =~= before);
                    assert(!entries_map(before).dom().contains(w@)) by {
                        if entries_map(before).dom().contains(w@) {
                            let j = choose|j: int| 0 <= j < before.len() && #[trigger] before[j].0@ == w@;
                        }
                    }
                }
            },
        }
    }

    /// The entries ranked: more uses first, equal uses in character order.
    pub fn ranked(&self) -> (r: Vec<(String, i32)>)
        requires
            self.wf(),
        ensures
            distinct_keys(r@),
            ranked(r@),
            entries_map(r@) == self@,
            r.len() == self@.len(),
    {
        let mut r: Vec<(String, i32)> = Vec::new();
        let mut i: usize = 0;
        while i < self.entries.len()
            invariant
                self.wf(),
                i <= self.entries.len(),
                r.len() == i,
                distinct_keys(r@),
                ranked(r@),
                covers(r@, self.entries@.take(i as int)),
            decreases self.entries.len() - i,
        {
            let e = (self.entries[i].0.clone(), self.entries[i].1);
            let e_chars = chars_of(e.0.as_str());
            let mut p: usize = 0;
            while p < r.len()
                invariant
                    p <= r.len(),
                    e_chars@ == e.0@,
                    forall|j: int| 0 <= j < p ==> !ranks_before(e, #[trigger] r@[j]),
                ensures
                    p <= r.len(),
                    forall|j: int| 0 <= j < p ==> !ranks_before(e, #[trigger] r@[j]),
                    p < r.len() ==> ranks_before(e, r@[p as int]),
                decreases r.len() - p,
            {
                let other = chars_of(r[p].0.as_str());
                if e.1 > r[p].1 || (e.1 == r[p].1 && lex_less(&e_chars, &other)) {
                    break;
                }
                p = p + 1;
            }
            proof {
                lemma_new_word(r@, self.entries@, i as int);
                lemma_insert_ranked(r@, e, p as int);
                lemma_insert_covers(r@, self.entries@, i as int, p as int);
            }
            r.insert(p, e);
            i = i + 1;
        }
        proof {
            let all = self.entries@.take(self.entries@.len() as int);
            assert(all =~= self.entries@);
            lemma_same_entries(r@, all);
            lemma_map_len(self.entries@);
        }
        r
    }

    /// At most the `n` best-ranked entries.
    pub fn top(&self, n: usize) -> (r: Vec<(String, i32)>)
        requires
            self.wf(),
        ensures
            r.len() == if self@.len() < n { self@.len() } else { n as nat },
            ranked(r@),
            distinct_keys(r@),
            forall|i: int| 0 <= i < r.len() ==> #[trigger] self@.dom().contains(r@[i].0@) && self@[r@[i].0@] == r@[i].1,
            forall|w: Seq<char>|
                #[trigger] self@.dom().contains(w) && (forall|i: int| 0 <= i < r.len() ==> r@[i].0@ != w)
                    ==> forall|i: int| 0 <= i < r.len() ==> outranks(#[trigger] r@[i].0@, r@[i].1 as int, w, self@[w]),
    {
        let all = self.ranked();
        let mut r: Vec<(String, i32)> = Vec::new();
        let mut i: usize = 0;
        while i < all.len() && i < n
            invariant
                i <= all.len(),
                i <= n,
                all.len() == self@.len(),
                r@ == all@.take(i as int),
            decreases all.len() - i,
        {
            r.push((all[i].0.clone(), all[i].1));
            i = i + 1;
            assert(r@ =~= all@.take(i as int));
        }
        proof {
            lemma_entries_map(all@);
            assert forall|w: Seq<char>|
                #[trigger] self@.dom().contains(w) && (forall|i: int| 0 <= i < r.len() ==> r@[i].0@ != w)
                implies forall|i: int| 0 <= i < r.len() ==> outranks(#[trigger] r@[i].0@, r@[i].1 as int, w, self@[w]) by {
                let j = choose|j: int| 0 <= j < all@.len() && #[trigger] all@[j].0@ == w;
                if j < r.len() {
                    assert(r@[j].0@ == w);
                }
                assert forall|i: int| 0 <= i < r.len() implies outranks(#[trigger] r@[i].0@, r@[i].1 as int, w, self@[w]) by {
                    assert(r@[i] == all@[i]);
                    assert(ranks_before(all@[i], all@[j]));
                }
            }
        }
        r
    }
}

/// The sum of the counts of the entries.
pub open spec fn total(s: Seq<(String, i32)>) -> int
    decreases s.len(),
{
    if s.len() == 0 {
        0
    } else {
        total(s.drop_last()) + s.last().1
    }
}

proof fn lemma_total_update(s: Seq<(String, i32)>, i: int, e: (String, i32))
    requires
        0 <= i < s.len(),
    ensures
        total(s.update(i, e)) == total(s) - s[i].1 + e.1,
    decreases s.len(),
{
    if i < s.len() - 1 {
        assert(s.update(i, e).drop_last() =~= s.drop_last().update(i, e));
        lemma_total_update(s.drop_last(), i, e);
    } else {
        assert(s.update(i, e).drop_last() =~= s.drop_last());
    }
}

/// Each entry of `a` is one of `b` and each of `b` one of `a`.
pub open spec fn covers(a: Seq<(String, i32)>, b: Seq<(String, i32)>) -> bool {
    &&& forall|j: int| #![trigger a[j]] 0 <= j < a.len() ==> exists|k: int| 0 <= k < b.len() && #[trigger] b[k] == a[j]
    &&& forall|k: int| #![trigger b[k]] 0 <= k < b.len() ==> exists|j: int| 0 <= j < a.len() && #[trigger] a[j] == b[k]
}

proof fn lemma_new_word(r: Seq<(String, i32)>, src: Seq<(String, i32)>, i: int)
    requires
        distinct_keys(src),
        0 <= i < src.len(),
        covers(r, src.take(i)),
    ensures
        forall|j: int| 0 <= j < r.len() ==> #[trigger] r[j].0@ != src[i].0@,
{
    assert forall|j: int| 0 <= j < r.len() implies #[trigger] r[j].0@ != src[i].0@ by {
        let k = choose|k: int| 0 <= k < src.take(i).len() && #[trigger] src.take(i)[k] == r[j];
        assert(src[k] == r[j]);
    }
}

proof fn lemma_insert_ranked(r: Seq<(String, i32)>, e: (String, i32), p: int)
    requires
        distinct_keys(r),
        ranked(r),
        0 <= p <= r.len(),
        forall|j: int| 0 <= j < r.len() ==> #[trigger] r[j].0@ != e.0@,
        forall|j: int| 0 <= j < p ==> !ranks_before(e, #[trigger] r[j]),
        p < r.len() ==> ranks_before(e, r[p]),
    ensures
        distinct_keys(r.insert(p, e)),
        ranked(r.insert(p, e)),
{
    r.insert_ensures(p, e);
    let n = r.insert(p, e);
    assert forall|j: int| 0 <= j < p implies ranks_before(#[trigger] r[j], e) by {
        lemma_lex_total(r[j].0@, e.0@);
        lemma_lex_asymmetric(r[j].0@, e.0@);
    }
    assert forall|j: int| p <= j < r.len() implies ranks_before(e, #[trigger] r[j]) by {
        if j > p {
            assert(ranks_before(r[p], r[j]));
            if e.1 == r[p].1 && r[p].1 == r[j].1 {
                lemma_lex_transitive(e.0@, r[p].0@, r[j].0@);
            }
        }
    }
    assert forall|a: int, b: int| 0 <= a < n.len() && 0 <= b < n.len() && a != b implies #[trigger] n[a].0@ != #[trigger] n[b].0@ by {
        if a < p { assert(n[a] == r[a]); } else if a > p { assert(n[a] == r[a - 1]); }
        if b < p { assert(n[b] == r[b]); } else if b > p { assert(n[b] == r[b - 1]); }
    }
    assert forall|a: int, b: int| 0 <= a < b < n.len() implies ranks_before(#[trigger] n[a], #[trigger] n[b]) by {
        if a < p { assert(n[a] == r[a]); } else if a > p { assert(n[a] == r[a - 1]); }
        if b < p { assert(n[b] == r[b]); } else if b > p { assert(n[b] == r[b - 1]); }
    }
}

proof fn lemma_insert_covers(r: Seq<(String, i32)>, src: Seq<(String, i32)>, i: int, p: int)
    requires
        0 <= i < src.len(),
        0 <= p <= r.len(),
        covers(r, src.take(i)),
    ensures
        covers(r.insert(p, src[i]), src.take(i + 1)),
{
    let e = src[i];
    r.insert_ensures(p, e);
    let n = r.insert(p, e);
    let a = src.take(i);
    let b = src.take(i + 1);
    assert forall|j: int| #![trigger n[j]] 0 <= j < n.len() implies exists|k: int| 0 <= k < b.len() && #[trigger] b[k] == n[j] by {
        if j == p {
            assert(b[i] == n[j]);
        } else {
            let oj = if j < p { j } else { j - 1 };
            assert(n[j] == r[oj]);
            let k = choose|k: int| 0 <= k < a.len() && #[trigger] a[k] == r[oj];
            assert(b[k] == a[k]);
        }
    }
    assert forall|k: int| #![trigger b[k]] 0 <= k < b.len() implies exists|j: int| 0 <= j < n.len() && #[trigger] n[j] == b[k] by {
        if k == i {
            assert(n[p] == b[k]);
        } else {
            assert(a[k] == b[k]);
            let j = choose|j: int| 0 <= j < r.len() && #[trigger] r[j] == a[k];
            if j < p {
                assert(n[j] == r[j]);
            } else {
                assert(n[j + 1] == r[j]);
            }
        }
    }
}

proof fn lemma_finite(s: Seq<(String, i32)>)
    ensures
        entries_map(s).dom().finite(),
    decreases s.len(),
{
    if s.len() > 0 {
        lemma_finite(s.drop_last());
    }
}

proof fn lemma_map_len(s: Seq<(String, i32)>)
    requires
        distinct_keys(s),
    ensures
        entries_map(s).len() == s.len(),
    decreases s.len(),
{
    if s.len() > 0 {
        let t = s.drop_last();
        assert(distinct_keys(t));
        lemma_map_len(t);
        lemma_finite(t);
        lemma_entries_map(t);
        assert(!entries_map(t).dom().contains(s.last().0@)) by {
            if entries_map(t).dom().contains(s.last().0@) {
                let j = choose|j: int| 0 <= j < t.len() && #[trigger] t[j].0@ == s.last().0@;
                assert(s[j] == t[j]);
            }
        }
    }
}

} // verus!
