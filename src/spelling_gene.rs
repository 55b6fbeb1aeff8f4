use crate::genedle::chars_of;
use crate::random::{seeded_rng, shuffle_chars};
use crate::registry::{RegistryReply, STATUS_SUCCESS};
use rand::rngs::StdRng;
use vstd::prelude::*;

verus! {

/// The letters of a puzzle: the outer ring and the center every word must use.
#[derive(Debug, Clone, PartialEq, Eq)]
pub struct SpellingGeneMetadata {
    pub outer_letters: Vec<char>,
    pub center_letter: char,
}

/// A generated puzzle: its letters and every known symbol they spell.
#[derive(Debug, Clone, PartialEq, Eq)]
pub struct SpellingGeneGame {
    pub metadata: SpellingGeneMetadata,
    pub valid_symbols: Vec<String>,
}

/// No letter set met the word-count target within the retry cap.
#[derive(Debug, Clone, Copy, PartialEq, Eq, Structural)]
pub struct GenerationFailed;

/// How many letter sets the search tries before it gives up.
pub const MAX_ITERS: usize = 10000;

/// How many more letters than the puzzle's own the pool of symbols is fetched for.
pub const EXTRA_POOL_LETTERS: usize = 5;

/// The symbols' alphabet: the capital letters and the hyphen.
pub open spec fn alphabet() -> Seq<char> {
    seq![
        'A', 'B', 'C', 'D', 'E', 'F', 'G', 'H', 'I', 'J', 'K', 'L', 'M', 'N', 'O', 'P', 'Q',
        'R', 'S', 'T', 'U', 'V', 'W', 'X', 'Y', 'Z', '-',
    ]
}

/// The strings' character sequences.
pub open spec fn views(v: Seq<String>) -> Seq<Seq<char>> {
    v.map_values(|s: String| s@)
}

/// Whether every character of `w` is one of `letters`.
pub open spec fn uses_only(w: Seq<char>, letters: Seq<char>) -> bool {
    forall|i: int| 0 <= i < w.len() ==> letters.contains(#[trigger] w[i])
}

/// Whether `w` is spelled from `letters` and uses the center, their last one.
pub open spec fn fits(w: Seq<char>, letters: Seq<char>) -> bool {
    &&& letters.len() >= 1
    &&& w.contains(letters.last())
    &&& uses_only(w, letters)
}

/// The distinct symbols of a pool that a letter set spells.
pub open spec fn fitting(pool: Seq<String>, letters: Seq<char>) -> Set<Seq<char>> {
    views(pool).to_set().filter(|w: Seq<char>| fits(w, letters))
}

/// Whether `v` lists the set `s` once each.
pub open spec fn lists(v: Seq<String>, s: Set<Seq<char>>) -> bool {
    views(v).no_duplicates() && views(v).to_set() == s
}

/// The letters of a game, the center last.
pub open spec fn game_letters(g: SpellingGeneGame) -> Seq<char> {
    g.metadata.outer_letters@.push(g.metadata.center_letter)
}

/// Whether `letters` are `count` distinct letters of the alphabet.
pub open spec fn letter_draw(letters: Seq<char>, count: int) -> bool {
    &&& letters.len() == if count < alphabet().len() { count } else { alphabet().len() as int }
    &&& letters.no_duplicates()
    &&& forall|i: int| 0 <= i < letters.len() ==> alphabet().contains(#[trigger] letters[i])
}

/// A game built from `pool`: `num_letters` distinct letters (as many as the
/// alphabet has, at most), the symbols of the pool they spell, listed once
/// each, and at least `min_words` of them.
pub open spec fn valid_game(g: SpellingGeneGame, pool: Seq<String>, num_letters: int, min_words: int) -> bool {
    &&& letter_draw(game_letters(g), num_letters)
    &&& lists(g.valid_symbols@, fitting(pool, game_letters(g)))
    &&& g.valid_symbols@.len() >= min_words
}

/// The symbols that a reply contributes to the pool.
pub open spec fn contributed(reply: RegistryReply) -> Seq<String> {
    match reply {
        RegistryReply::Answered(s) => if s.status == STATUS_SUCCESS { s.symbols@ } else { seq![] },
        RegistryReply::Failed(_) => seq![],
    }
}

/// Whether a letter's pair of searches (prefix, suffix) both went through.
pub open spec fn usable(p: (RegistryReply, RegistryReply)) -> bool {
    !(p.0 is Failed) && !(p.1 is Failed)
}

/// Whether `w` came back from a usable pair of searches.
pub open spec fn fetched(replies: Seq<(RegistryReply, RegistryReply)>, w: Seq<char>) -> bool {
    exists|i: int|
        0 <= i < replies.len() && usable(#[trigger] replies[i]) && (views(contributed(replies[i].0)).contains(w)
            || views(contributed(replies[i].1)).contains(w))
}

/// Whether the pool holds exactly the fetched symbols of at least `min_length` characters.
pub open spec fn pool_of(pool: Seq<String>, replies: Seq<(RegistryReply, RegistryReply)>, min_length: int) -> bool {
    forall|w: Seq<char>| views(pool).contains(w) <==> (fetched(replies, w) && w.len() >= min_length)
}

fn alphabet_vec() -> (r: Vec<char>)
    ensures
        r@ == alphabet(),
{
    let r = vec![
        'A', 'B', 'C', 'D', 'E', 'F', 'G', 'H', 'I', 'J', 'K', 'L', 'M', 'N', 'O', 'P', 'Q',
        'R', 'S', 'T', 'U', 'V', 'W', 'X', 'Y', 'Z', '-',
    ];
    assert(r@ =~= alphabet());
    r
}

proof fn lemma_alphabet_distinct()
    ensures
        alphabet().no_duplicates(),
{
    let a = alphabet();
    assert forall|i: int, j: int| 0 <= i < a.len() && 0 <= j < a.len() && i != j implies a[i] != a[j] by {
        assert(forall|k: int| 0 <= k < 26 ==> a[k] as u32 == 65 + k);
        assert(a[26] as u32 == 45);
    }
}

/// Whether `c` is among `v`.
fn has_char(v: &Vec<char>, c: char) -> (r: bool)
    ensures
        r == v@.contains(c),
{
    let mut i: usize = 0;
    while i < v.len()
        invariant
            i <= v@.len(),
            forall|j: int| 0 <= j < i ==> v@[j] != c,
        decreases v@.len() - i,
    {
        if v[i] == c {
            return true;
        }
        i = i + 1;
    }
    false
}

/// Whether a string with these characters is among `v`.
fn has_symbol(v: &Vec<String>, w: &String) -> (r: bool)
    ensures
        r == views(v@).contains(w@),
{
    let mut i: usize = 0;
    while i < v.len()
        invariant
            i <= v@.len(),
            forall|j: int| 0 <= j < i ==> v@[j]@ != w@,
        decreases v@.len() - i,
    {
        if v[i] == *w {
            assert(views(v@)[i as int] == w@);
            return true;
        }
        i = i + 1;
    }
    false
}

/// Whether `w` is spelled from `letters` and uses their last one.
pub fn fits_letters(w: &String, letters: &Vec<char>) -> (r: bool)
    requires
        letters@.len() >= 1,
    ensures
        r == fits(w@, letters@),
{
    let chars = chars_of(w);
    let center = letters[letters.len() - 1];
    if !has_char(&chars, center) {
        return false;
    }
    let mut i: usize = 0;
    while i < chars.len()
        invariant
            chars@ == w@,
            i <= chars@.len(),
            forall|j: int| 0 <= j < i ==> letters@.contains(#[trigger] chars@[j]),
        decreases chars@.len() - i,
    {
        if !has_char(letters, chars[i]) {
            return false;
        }
        i = i + 1;
    }
    true
}

/// Shuffles the alphabet with the generator and keeps its first `count` letters.
pub fn draw_letters(rng: &mut StdRng, count: usize) -> (r: Vec<char>)
    ensures
        letter_draw(r@, count as int),
{
    let mut v = alphabet_vec();
    shuffle_chars(rng, &mut v);
    proof {
        lemma_alphabet_distinct();
        alphabet().lemma_multiset_has_no_duplicates();
        v@.lemma_multiset_has_no_duplicates_conv();
        assert forall|i: int| 0 <= i < v@.len() implies alphabet().contains(#[trigger] v@[i]) by {
            vstd::seq_lib::to_multiset_contains(v@, v@[i]);
            vstd::seq_lib::to_multiset_contains(alphabet(), v@[i]);
        }
    }
    let ghost full = v@;
    v.truncate(count);
    assert(v@ =~= full.subrange(0, v@.len() as int));
    v
}

/// Tries one drawn letter set, its last letter the center: the puzzle it
/// makes, if the pool holds at least `min_words` distinct symbols it spells.
pub fn try_letters(pool: &Vec<String>, letters: &Vec<char>, min_words: usize) -> (r: Option<SpellingGeneGame>)
    requires
        letters@.len() >= 1,
    ensures
        r is Some <==> fitting(pool@, letters@).len() >= min_words,
        r matches Some(g) ==> game_letters(g) == letters@ && lists(g.valid_symbols@, fitting(pool@, letters@)),
{
    let mut chosen: Vec<String> = Vec::new();
    let mut i: usize = 0;
    proof {
        let e = Seq::<Seq<char>>::empty();
        assert(views(chosen@) =~= e);
        assert(views(pool@.subrange(0, 0)) =~= e);
        assert(e.to_set() =~= Set::empty());
        assert(e.to_set().filter(|w: Seq<char>| fits(w, letters@)) =~= Set::empty());
    }
    while i < pool.len()
        invariant
            letters@.len() >= 1,
            i <= pool@.len(),
            lists(chosen@, views(pool@.subrange(0, i as int)).to_set().filter(|w: Seq<char>| fits(w, letters@))),
        decreases pool@.len() - i,
    {
        let ghost before = views(pool@.subrange(0, i as int));
        let ghost after = views(pool@.subrange(0, i + 1));
        assert(after =~= before.push(pool@[i as int]@));
        proof {
            before.lemma_push_to_set_commute(pool@[i as int]@);
        }
        if fits_letters(&pool[i], letters) && !has_symbol(&chosen, &pool[i]) {
            let ghost old_chosen = chosen@;
            chosen.push(pool[i].clone());
            proof {
                assert(views(chosen@) =~= views(old_chosen).push(pool@[i as int]@));
                views(old_chosen).lemma_push_to_set_commute(pool@[i as int]@);
                assert(views(chosen@).to_set() =~= after.to_set().filter(|w: Seq<char>| fits(w, letters@)));
                assert forall|a: int, b: int| 0 <= a < views(chosen@).len() && 0 <= b < views(chosen@).len() && a != b
                    implies views(chosen@)[a] != views(chosen@)[b] by {
                    if a == views(old_chosen).len() {
                        assert(views(old_chosen).contains(views(chosen@)[b]));
                    } else if b == views(old_chosen).len() {
                        assert(views(old_chosen).contains(views(chosen@)[a]));
                    }
                }
            }
        } else {
            proof {
                if fits(pool@[i as int]@, letters@) {
                    assert(views(chosen@).contains(pool@[i as int]@));
                }
                assert(views(chosen@).to_set() =~= after.to_set().filter(|w: Seq<char>| fits(w, letters@)));
            }
        }
        i = i + 1;
    }
    assert(pool@.subrange(0, pool@.len() as int) =~= pool@);
    proof {
        views(chosen@).unique_seq_to_set();
    }
    if chosen.len() >= min_words {
        let mut outer: Vec<char> = Vec::new();
        let last = letters.len() - 1;
        let mut j: usize = 0;
        while j < last
            invariant
                last == letters@.len() - 1,
                j <= last,
                outer@ == letters@.subrange(0, j as int),
            decreases last - j,
        {
            outer.push(letters[j]);
            assert(outer@ =~= letters@.subrange(0, j + 1));
            j = j + 1;
        }
        let g = SpellingGeneGame {
            metadata: SpellingGeneMetadata { outer_letters: outer, center_letter: letters[last] },
            valid_symbols: chosen,
        };
        assert(game_letters(g) =~= letters@);
        Some(g)
    } else {
        None
    }
}

/// Searches for a letter set of `num_letters` letters (at most the whole
/// alphabet) whose puzzle has at least `min_words` symbols of the pool,
/// drawing a fresh set from the generator up to `MAX_ITERS` times.
pub fn search(rng: &mut StdRng, pool: &Vec<String>, num_letters: u8, min_words: usize) -> (r: Result<
    SpellingGeneGame,
    GenerationFailed,
>)
    requires
        num_letters >= 1,
    ensures
        r matches Ok(g) ==> valid_game(g, pool@, num_letters as int, min_words as int),
        min_words == 0 ==> r is Ok,
{
    let mut iter: usize = 0;
    while iter < MAX_ITERS
        invariant
            num_letters >= 1,
            iter <= MAX_ITERS,
            min_words == 0 ==> iter == 0,
        decreases MAX_ITERS - iter,
    {
        iter = iter + 1;
        let letters = draw_letters(rng, num_letters as usize);
        match try_letters(pool, &letters, min_words) {
            Some(g) => {
                proof {
                    views(g.valid_symbols@).unique_seq_to_set();
                }
                return Ok(g);
            },
            None => {},
        }
    }
    Err(GenerationFailed)
}

/// Adds to `r` the symbols of at least `min_length` characters that `reply` contributes.
fn add_symbols(r: &mut Vec<String>, reply: &RegistryReply, min_length: usize)
    ensures
        forall|w: Seq<char>| #[trigger] views(final(r)@).contains(w) <==> (views(old(r)@).contains(w) || (views(
            contributed(*reply),
        ).contains(w) && w.len() >= min_length)),
{
    match reply {
        RegistryReply::Answered(s) => {
            if s.status == STATUS_SUCCESS {
                let ghost start = r@;
                let mut j: usize = 0;
                assert(views(s.symbols@.subrange(0, 0)) =~= Seq::<Seq<char>>::empty());
                while j < s.symbols.len()
                    invariant
                        j <= s.symbols@.len(),
                        forall|w: Seq<char>| #[trigger] views(r@).contains(w) <==> (views(start).contains(w) || (views(
                            s.symbols@.subrange(0, j as int),
                        ).contains(w) && w.len() >= min_length)),
                    decreases s.symbols@.len() - j,
                {
                    let ghost x = s.symbols@[j as int]@;
                    let ghost prev = r@;
                    assert(views(s.symbols@.subrange(0, j + 1)) =~= views(s.symbols@.subrange(0, j as int)).push(x));
                    if s.symbols[j].as_str().unicode_len() >= min_length {
                        r.push(s.symbols[j].clone());
                        assert(views(r@) =~= views(prev).push(x));
                        assert forall|w: Seq<char>| #[trigger] views(r@).contains(w) == (views(prev).contains(w) || w == x) by {
                            if views(r@).contains(w) {
                                let k = choose|k: int| 0 <= k < views(r@).len() && views(r@)[k] == w;
                                if k < views(prev).len() {
                                    assert(views(prev)[k] == w);
                                }
                            }
                            if views(prev).contains(w) {
                                let k = choose|k: int| 0 <= k < views(prev).len() && views(prev)[k] == w;
                                assert(views(r@)[k] == w);
                            }
                            if w == x {
                                assert(views(r@)[views(prev).len() as int] == w);
                            }
                        }
                    }
                    assert forall|w: Seq<char>| #[trigger] views(s.symbols@.subrange(0, j + 1)).contains(w) == (views(
                        s.symbols@.subrange(0, j as int),
                    ).contains(w) || w == x) by {
                        let a = views(s.symbols@.subrange(0, j as int));
                        let b = views(s.symbols@.subrange(0, j + 1));
                        if b.contains(w) {
                            let k = choose|k: int| 0 <= k < b.len() && b[k] == w;
                            if k < a.len() {
                                assert(a[k] == w);
                            }
                        }
                        if a.contains(w) {
                            let k = choose|k: int| 0 <= k < a.len() && a[k] == w;
                            assert(b[k] == w);
                        }
                        if w == x {
                            assert(b[j as int] == w);
                        }
                    }
                    j = j + 1;
                }
                assert(s.symbols@.subrange(0, s.symbols@.len() as int) =~= s.symbols@);
            } else {
                assert(views(contributed(*reply)) =~= Seq::<Seq<char>>::empty());
            }
        },
        RegistryReply::Failed(_) => {
            assert(views(contributed(*reply)) =~= Seq::<Seq<char>>::empty());
        },
    }
}

/// Builds the pool of symbols from the searches made for each pool letter,
/// a prefix search and a suffix search each: a letter whose searches did not
/// both go through adds nothing, and only symbols of at least `min_length`
/// characters are kept.
pub fn gather_pool(replies: &Vec<(RegistryReply, RegistryReply)>, min_length: usize) -> (r: Vec<String>)
    ensures
        pool_of(r@, replies@, min_length as int),
{
    let mut r: Vec<String> = Vec::new();
    let mut i: usize = 0;
    assert(views(r@) =~= Seq::<Seq<char>>::empty());
    while i < replies.len()
        invariant
            i <= replies@.len(),
            pool_of(r@, replies@.subrange(0, i as int), min_length as int),
        decreases replies@.len() - i,
    {
        let ghost prev = r@;
        let ghost a = replies@.subrange(0, i as int);
        let ghost b = replies@.subrange(0, i + 1);
        let pair = &replies[i];
        let ok = match (&pair.0, &pair.1) {
            (RegistryReply::Failed(_), _) => false,
            (_, RegistryReply::Failed(_)) => false,
            _ => true,
        };
        if ok {
            add_symbols(&mut r, &pair.0, min_length);
            add_symbols(&mut r, &pair.1, min_length);
        }
        assert forall|w: Seq<char>| fetched(b, w) == (fetched(a, w) || (usable(replies@[i as int]) && (views(
            contributed(replies@[i as int].0),
        ).contains(w) || views(contributed(replies@[i as int].1)).contains(w)))) by {
            if fetched(b, w) {
                let k = choose|k: int|
                    0 <= k < b.len() && usable(#[trigger] b[k]) && (views(contributed(b[k].0)).contains(w)
                        || views(contributed(b[k].1)).contains(w));
                if k < a.len() {
                    assert(a[k] == b[k]);
                }
            }
            if fetched(a, w) {
                let k = choose|k: int|
                    0 <= k < a.len() && usable(#[trigger] a[k]) && (views(contributed(a[k].0)).contains(w)
                        || views(contributed(a[k].1)).contains(w));
                assert(a[k] == b[k]);
            }
            if usable(replies@[i as int]) {
                assert(b[i as int] == replies@[i as int]);
            }
        }
        i = i + 1;
    }
    assert(replies@.subrange(0, replies@.len() as int) =~= replies@);
    r
}

/// Whether a generated puzzle accepts `word`: only a puzzle that was
/// generated accepts anything, and it accepts exactly its valid symbols.
pub open spec fn accepts(game: Result<SpellingGeneGame, GenerationFailed>, word: Seq<char>) -> bool {
    game matches Ok(g) && views(g.valid_symbols@).contains(word)
}

/// Checks a candidate word against a puzzle; a puzzle that could not be
/// generated accepts nothing.
pub fn check_guess(game: &Result<SpellingGeneGame, GenerationFailed>, guess: &String) -> (r: bool)
    ensures
        r == accepts(*game, guess@),
{
    match game {
        Ok(g) => has_symbol(&g.valid_symbols, guess),
        Err(_) => false,
    }
}

/// A game generated from the searches `replies`: `num_letters` distinct letters
/// (at most the whole alphabet); its valid symbols are, once each, exactly the
/// fetched symbols of at least `min_length` characters that those letters
/// spell with the center; and there are at least `min_words` of them.
pub open spec fn generated(
    g: SpellingGeneGame,
    replies: Seq<(RegistryReply, RegistryReply)>,
    min_length: int,
    min_words: int,
    num_letters: int,
) -> bool {
    &&& letter_draw(game_letters(g), num_letters)
    &&& views(g.valid_symbols@).no_duplicates()
    &&& forall|w: Seq<char>| #[trigger] views(g.valid_symbols@).contains(w) <==> (fetched(replies, w)
        && w.len() >= min_length && fits(w, game_letters(g)))
    &&& g.valid_symbols@.len() >= min_words
}

/// Seeds the generator for a puzzle and draws the letters whose symbols
/// make its pool: `EXTRA_POOL_LETTERS` more than the puzzle's own.
pub fn pool_letters(seed: u64, num_letters: u8) -> (r: (StdRng, Vec<char>))
    ensures
        letter_draw(r.1@, num_letters + EXTRA_POOL_LETTERS),
{
    let mut rng = seeded_rng(seed);
    let letters = draw_letters(&mut rng, num_letters as usize + EXTRA_POOL_LETTERS);
    (rng, letters)
}

/// Generates a puzzle from the searches made for the pool letters, drawing
/// its letter sets from the generator that drew the pool letters.
pub fn generate_game(
    rng: &mut StdRng,
    replies: &Vec<(RegistryReply, RegistryReply)>,
    min_length: usize,
    min_words: usize,
    num_letters: u8,
) -> (r: Result<SpellingGeneGame, GenerationFailed>)
    requires
        num_letters >= 1,
    ensures
        r matches Ok(g) ==> generated(g, replies@, min_length as int, min_words as int, num_letters as int),
        min_words == 0 ==> r is Ok,
{
    let pool = gather_pool(replies, min_length);
    let r = search(rng, &pool, num_letters, min_words);
    proof {
        if let Ok(g) = &r {
            assert forall|w: Seq<char>| #[trigger] views(g.valid_symbols@).contains(w) <==> (fetched(replies@, w)
                && w.len() >= min_length && fits(w, game_letters(*g))) by {
                assert(views(g.valid_symbols@).contains(w) == views(g.valid_symbols@).to_set().contains(w));
                assert(views(pool@).contains(w) == views(pool@).to_set().contains(w));
            }
        }
    }
    r
}

/// The letters of a puzzle, where one was generated.
pub fn get_letters(game: &Result<SpellingGeneGame, GenerationFailed>) -> (r: Option<SpellingGeneMetadata>)
    ensures
        game is Err ==> r is None,
        game matches Ok(g) ==> r matches Some(m) && m.outer_letters@ == g.metadata.outer_letters@
            && m.center_letter == g.metadata.center_letter,
{
    match game {
        Ok(g) => {
            let src = &g.metadata.outer_letters;
            let mut outer: Vec<char> = Vec::new();
            let mut j: usize = 0;
            while j < src.len()
                invariant
                    j <= src@.len(),
                    outer@ == src@.subrange(0, j as int),
                decreases src@.len() - j,
            {
                outer.push(src[j]);
                assert(outer@ =~= src@.subrange(0, j + 1));
                j = j + 1;
            }
            assert(outer@ =~= src@);
            Some(SpellingGeneMetadata { outer_letters: outer, center_letter: g.metadata.center_letter })
        },
        Err(_) => None,
    }
}

/// A generated puzzle has one outer letter fewer than it has letters, and
/// the center is not among them; every valid symbol is at least `min_length`
/// characters long, uses only the puzzle's letters and the center; and there
/// are at least `min_words` valid symbols.
pub proof fn lemma_generated_shape(
    g: SpellingGeneGame,
    replies: Seq<(RegistryReply, RegistryReply)>,
    min_length: int,
    min_words: int,
    num_letters: int,
)
    requires
        1 <= num_letters <= alphabet().len(),
        generated(g, replies, min_length, min_words, num_letters),
    ensures
        g.metadata.outer_letters@.len() == num_letters - 1,
        !g.metadata.outer_letters@.contains(g.metadata.center_letter),
        forall|i: int| 0 <= i < g.valid_symbols@.len() ==> {
            let w = #[trigger] g.valid_symbols@[i]@;
            &&& w.len() >= min_length
            &&& w.contains(g.metadata.center_letter)
            &&& forall|k: int| 0 <= k < w.len() ==> (w[k] == g.metadata.center_letter
                || g.metadata.outer_letters@.contains(#[trigger] w[k]))
        },
        g.valid_symbols@.len() >= min_words,
{
    let letters = game_letters(g);
    let outer = g.metadata.outer_letters@;
    if outer.contains(g.metadata.center_letter) {
        let k = choose|k: int| 0 <= k < outer.len() && outer[k] == g.metadata.center_letter;
        assert(letters[k] == letters[outer.len() as int]);
    }
    assert forall|i: int| 0 <= i < g.valid_symbols@.len() implies {
        let w = #[trigger] g.valid_symbols@[i]@;
        &&& w.len() >= min_length
        &&& w.contains(g.metadata.center_letter)
        &&& forall|k: int| 0 <= k < w.len() ==> (w[k] == g.metadata.center_letter
            || g.metadata.outer_letters@.contains(#[trigger] w[k]))
    } by {
        let w = g.valid_symbols@[i]@;
        assert(views(g.valid_symbols@)[i] == w);
        assert(views(g.valid_symbols@).contains(w));
        assert forall|k: int| 0 <= k < w.len() implies (w[k] == g.metadata.center_letter
            || g.metadata.outer_letters@.contains(#[trigger] w[k])) by {
            assert(letters.contains(w[k]));
            let m = choose|m: int| 0 <= m < letters.len() && letters[m] == w[k];
            if m < outer.len() {
                assert(outer[m] == w[k]);
            }
        }
    }
}

/// A puzzle accepts a word exactly when it was generated and the word is a
/// fetched symbol of at least `min_length` characters that its letters spell
/// with the center; a puzzle that could not be generated accepts nothing.
pub proof fn lemma_membership(
    game: Result<SpellingGeneGame, GenerationFailed>,
    replies: Seq<(RegistryReply, RegistryReply)>,
    min_length: int,
    min_words: int,
    num_letters: int,
    word: Seq<char>,
)
    requires
        game matches Ok(g) ==> generated(g, replies, min_length, min_words, num_letters),
    ensures
        accepts(game, word) <==> (game matches Ok(g) && fetched(replies, word) && word.len() >= min_length
            && fits(word, game_letters(g))),
        game is Err ==> !accepts(game, word),
{
    if let Ok(g) = game {
        assert(views(g.valid_symbols@).contains(word) == (fetched(replies, word) && word.len() >= min_length
            && fits(word, game_letters(g))));
    }
}

} // verus!
