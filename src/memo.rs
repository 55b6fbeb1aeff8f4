use crate::genedle::{GameMode, Guess};
use vstd::prelude::*;

verus! {

/// A cache of computed results, keyed by sequences of integers. A key is
/// stored once: the first result stored under it is kept for good, so that
/// every later lookup sees that same result.
pub struct Memo<V> {
    entries: Vec<(Vec<u64>, V)>,
    contents: Ghost<Map<Seq<u64>, V>>,
}

/// The cache after storing `v` under `k` when `k` was not yet stored.
pub open spec fn remember<V>(m: Map<Seq<u64>, V>, k: Seq<u64>, v: V) -> Map<Seq<u64>, V> {
    if m.contains_key(k) {
        m
    } else {
        m.insert(k, v)
    }
}

impl<V> View for Memo<V> {
    type V = Map<Seq<u64>, V>;

    closed spec fn view(&self) -> Map<Seq<u64>, V> {
        self.contents@
    }
}

impl<V> Memo<V> {
    /// The entries list each stored key once, with its result.
    pub closed spec fn wf(&self) -> bool {
        &&& forall|i: int, j: int|
            0 <= i < self.entries@.len() && 0 <= j < self.entries@.len() && i != j
                ==> (#[trigger] self.entries@[i]).0@ != (#[trigger] self.entries@[j]).0@
        &&& forall|i: int|
            0 <= i < self.entries@.len() ==> self.contents@.contains_key((#[trigger] self.entries@[i]).0@)
                && self.contents@[self.entries@[i].0@] == self.entries@[i].1
        &&& forall|k: Seq<u64>|
            #[trigger] self.contents@.contains_key(k) ==> exists|i: int|
                0 <= i < self.entries@.len() && (#[trigger] self.entries@[i]).0@ == k
    }

    /// An empty cache.
    pub fn new() -> (r: Self)
        ensures
            r.wf(),
            r@ == Map::<Seq<u64>, V>::empty(),
    {
        Memo { entries: Vec::new(), contents: Ghost(Map::empty()) }
    }

    /// The result stored under `key`, if any.
    pub fn lookup(&self, key: &Vec<u64>) -> (r: Option<&V>)
        requires
            self.wf(),
        ensures
            r is Some <==> self@.contains_key(key@),
            r matches Some(v) ==> *v == self@[key@],
    {
        let mut i: usize = 0;
        while i < self.entries.len()
            invariant
                self.wf(),
                i <= self.entries@.len(),
                forall|j: int| 0 <= j < i ==> self.entries@[j].0@ != key@,
            decreases self.entries@.len() - i,
        {
            if same_key(&self.entries[i].0, key) {
                return Some(&self.entries[i].1);
            }
            i = i + 1;
        }
        proof {
            if self@.contains_key(key@) {
                let k = key@;
                assert(exists|j: int| 0 <= j < self.entries@.len() && (#[trigger] self.entries@[j]).0@ == k);
            }
        }
        None
    }

    /// Stores `value` under `key` unless a result is stored there already,
    /// which is then kept.
    pub fn store(&mut self, key: Vec<u64>, value: V)
        requires
            old(self).wf(),
        ensures
            final(self).wf(),
            final(self)@ == remember(old(self)@, key@, value),
    {
        let mut i: usize = 0;
        while i < self.entries.len()
            invariant
                self.wf(),
                i <= self.entries@.len(),
                forall|j: int| 0 <= j < i ==> self.entries@[j].0@ != key@,
            decreases self.entries@.len() - i,
        {
            if same_key(&self.entries[i].0, &key) {
                assert(self.contents@.contains_key(key@));
                return;
            }
            i = i + 1;
        }
        proof {
            if self.contents@.contains_key(key@) {
                let k = key@;
                assert(exists|j: int| 0 <= j < self.entries@.len() && (#[trigger] self.entries@[j]).0@ == k);
            }
        }
        let ghost k = key@;
        let ghost before = self.entries@;
        self.contents = Ghost(self.contents@.insert(k, value));
        self.entries.push((key, value));
        proof {
            assert forall|m: Seq<u64>| #[trigger] self.contents@.contains_key(m) implies exists|j: int|
                0 <= j < self.entries@.len() && (#[trigger] self.entries@[j]).0@ == m by {
                if m == k {
                    assert(self.entries@[before.len() as int].0@ == m);
                } else {
                    let j = choose|j: int| 0 <= j < before.len() && (#[trigger] before[j]).0@ == m;
                    assert(self.entries@[j] == before[j]);
                }
            }
            assert forall|a: int| 0 <= a < self.entries@.len() implies self.contents@.contains_key(
                (#[trigger] self.entries@[a]).0@,
            ) && self.contents@[self.entries@[a].0@] == self.entries@[a].1 by {
                if a < before.len() {
                    assert(self.entries@[a] == before[a]);
                }
            }
        }
    }
}

/// Whether two keys are equal.
fn same_key(a: &Vec<u64>, b: &Vec<u64>) -> (r: bool)
    ensures
        r == (a@ == b@),
{
    if a.len() != b.len() {
        return false;
    }
    let mut i: usize = 0;
    while i < a.len()
        invariant
            a@.len() == b@.len(),
            i <= a@.len(),
            forall|j: int| 0 <= j < i ==> a@[j] == b@[j],
        decreases a@.len() - i,
    {
        if a[i] != b[i] {
            return false;
        }
        i = i + 1;
    }
    assert(a@ =~= b@);
    true
}

/// A result once stored under a key stays the one found there, whatever is
/// stored under that key afterwards: repeated requests see one answer.
pub proof fn lemma_first_result_kept<V>(m: Map<Seq<u64>, V>, k: Seq<u64>, first: V, later: V)
    ensures
        remember(remember(m, k, first), k, later).contains_key(k),
        !m.contains_key(k) ==> remember(remember(m, k, first), k, later)[k] == first,
        m.contains_key(k) ==> remember(remember(m, k, first), k, later)[k] == m[k],
{
}

/// The key of a daily-word seed.
pub fn seed_key(seed: u64) -> (r: Vec<u64>)
    ensures
        r@ == seq![seed],
{
    let mut r: Vec<u64> = Vec::new();
    r.push(seed);
    assert(r@ =~= seq![seed]);
    r
}

/// The key of a puzzle's parameters.
pub fn puzzle_key(min_length: usize, min_words: usize, num_letters: u8, seed: u64) -> (r: Vec<u64>)
    ensures
        r@ == seq![min_length as u64, min_words as u64, num_letters as u64, seed],
{
    let mut r: Vec<u64> = Vec::new();
    r.push(min_length as u64);
    r.push(min_words as u64);
    r.push(num_letters as u64);
    r.push(seed);
    assert(r@ =~= seq![min_length as u64, min_words as u64, num_letters as u64, seed]);
    r
}

/// The integer code of a game mode.
pub open spec fn mode_code(m: GameMode) -> u64 {
    match m {
        GameMode::Normal => 0,
        GameMode::Hard => 1,
    }
}

/// The key of a guess: its session, its mode's code, then its letters' code points.
pub open spec fn guess_key_of(g: Guess) -> Seq<u64> {
    seq![g.session, mode_code(g.mode)] + g.word@.map_values(|c: char| c as u32 as u64)
}

/// The key of a guess.
pub fn guess_key(g: &Guess) -> (r: Vec<u64>)
    ensures
        r@ == guess_key_of(*g),
{
    let mut r: Vec<u64> = Vec::new();
    r.push(g.session);
    r.push(
        match g.mode {
            GameMode::Normal => 0,
            GameMode::Hard => 1,
        },
    );
    let mut i: usize = 0;
    while i < g.word.len()
        invariant
            i <= g.word@.len(),
            r@ == seq![g.session, mode_code(g.mode)] + g.word@.subrange(0, i as int).map_values(
                |c: char| c as u32 as u64,
            ),
        decreases g.word@.len() - i,
    {
        r.push(g.word[i] as u32 as u64);
        assert(g.word@.subrange(0, i + 1).map_values(|c: char| c as u32 as u64) =~= g.word@.subrange(
            0,
            i as int,
        ).map_values(|c: char| c as u32 as u64).push(g.word@[i as int] as u32 as u64));
        assert(r@ =~= seq![g.session, mode_code(g.mode)] + g.word@.subrange(0, i + 1).map_values(
            |c: char| c as u32 as u64,
        ));
        i = i + 1;
    }
    assert(g.word@.subrange(0, g.word@.len() as int) =~= g.word@);
    r
}

/// Guesses with the same key are the same guess: same letters, session and mode.
pub proof fn lemma_guess_key_injective(a: Guess, b: Guess)
    requires
        guess_key_of(a) == guess_key_of(b),
    ensures
        a.word@ == b.word@,
        a.session == b.session,
        a.mode == b.mode,
{
    let ka = guess_key_of(a);
    let kb = guess_key_of(b);
    assert(ka[0] == kb[0]);
    assert(ka[1] == kb[1]);
    assert(ka[0] == a.session && kb[0] == b.session);
    assert(ka[1] == mode_code(a.mode) && kb[1] == mode_code(b.mode));
    assert(ka.len() == 2 + a.word@.len());
    assert(kb.len() == 2 + b.word@.len());
    assert forall|i: int| 0 <= i < a.word@.len() implies a.word@[i] == b.word@[i] by {
        assert(ka[i + 2] == kb[i + 2]);
        assert(ka[i + 2] == a.word@.map_values(|c: char| c as u32 as u64)[i]);
        assert(kb[i + 2] == b.word@.map_values(|c: char| c as u32 as u64)[i]);
        let x = a.word@[i];
        let y = b.word@[i];
        assert(x as u32 == y as u32);
        vstd::utf8::char_u32_cast(x, x as u32);
        vstd::utf8::char_u32_cast(y, y as u32);
    }
    assert(a.word@ =~= b.word@);
}

} // verus!
