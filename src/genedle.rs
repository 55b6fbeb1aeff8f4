use crate::registry::{RegistryReply, SymbolSearch, STATUS_SUCCESS};
use crate::scoring::{feedback, score, LetterFeedback, ValidGuess};
use crate::selector::SelectError;
use vstd::prelude::*;

verus! {

/// Normal mode accepts any guess of the right length; hard mode also asks
/// the registry to know the guess as a symbol.
#[derive(Debug, Clone, Copy, PartialEq, Eq, Hash, Structural)]
pub enum GameMode {
    Normal,
    Hard,
}

/// A player's guess at the secret of a session.
#[derive(Debug, Clone, PartialEq, Eq, Hash)]
pub struct Guess {
    pub word: Vec<char>,
    pub session: u64,
    pub mode: GameMode,
}

/// Why a guess was not scored.
#[derive(Debug, Clone, PartialEq, Eq)]
pub enum InvalidGuess {
    InternalError(String),
    NotEnoughLetters,
    TooManyLetters,
    InvalidLetter,
    NotInCorpus,
}

/// The outcome of a guess.
#[derive(Debug, Clone, PartialEq, Eq)]
pub enum GuessResult {
    Invalid(InvalidGuess),
    Valid(ValidGuess),
}

/// What the first checks decided about a guess.
#[derive(Debug, Clone, PartialEq, Eq)]
pub enum Screening {
    /// The checks are done: `None` accepts the guess, `Some` rejects it.
    Settled(Option<InvalidGuess>),
    /// The guess has the right length in hard mode: the registry must be asked.
    NeedsLookup,
}

/// The message given when the secret's length is not known.
pub open spec fn unknown_secret_message() -> Seq<char> {
    "Unable to fetch gene symbol"@
}

/// The number of letters of a secret, or -1 where it could not be chosen.
pub open spec fn secret_length(secret: Result<String, SelectError>) -> int {
    match secret {
        Ok(w) => if w@.len() <= isize::MAX { w@.len() as int } else { -1 },
        Err(_) => -1,
    }
}

/// Whether an answered search knows `word` as a symbol.
pub open spec fn knows(s: SymbolSearch, word: Seq<char>) -> bool {
    &&& s.status == STATUS_SUCCESS
    &&& s.num_found >= 1
    &&& exists|i: int| 0 <= i < s.symbols@.len() && #[trigger] s.symbols@[i]@ == word
}

/// The verdict of the registry on a hard-mode guess.
pub open spec fn corpus_outcome(v: Option<InvalidGuess>, word: Seq<char>, reply: RegistryReply) -> bool {
    match reply {
        RegistryReply::Failed(m) => v matches Some(InvalidGuess::InternalError(e)) && e@ == m@,
        RegistryReply::Answered(s) => if knows(s, word) {
            v is None
        } else {
            v matches Some(InvalidGuess::NotInCorpus)
        },
    }
}

/// The verdict on a guess given the secret's length (-1 when unknown) and, in
/// hard mode, the registry's reply to an exact search for the guess.
pub open spec fn validity(v: Option<InvalidGuess>, g: Guess, secret_len: int, lookup: Option<RegistryReply>) -> bool {
    if secret_len < 0 {
        v matches Some(InvalidGuess::InternalError(e)) && e@ == unknown_secret_message()
    } else if g.word@.len() < secret_len {
        v matches Some(InvalidGuess::NotEnoughLetters)
    } else if g.word@.len() > secret_len {
        v matches Some(InvalidGuess::TooManyLetters)
    } else if g.mode == GameMode::Normal {
        v is None
    } else {
        corpus_outcome(v, g.word@, lookup.unwrap())
    }
}

/// The reply handed in, if any.
pub open spec fn lookup_of(lookup: Option<&RegistryReply>) -> Option<RegistryReply> {
    match lookup {
        Some(x) => Some(*x),
        None => None,
    }
}

/// The outcome of a guess against a secret: `Invalid` with the reason where
/// validation rejects the guess, otherwise its feedback against the secret.
pub open spec fn outcome(r: GuessResult, g: Guess, secret: Result<String, SelectError>, lookup: Option<RegistryReply>) -> bool {
    &&& validity(
        match r {
            GuessResult::Invalid(e) => Some(e),
            GuessResult::Valid(_) => None,
        },
        g,
        secret_length(secret),
        lookup,
    )
    &&& r matches GuessResult::Valid(v) ==> secret matches Ok(w) && v.result@ == feedback(g.word@, w@)
        && v.is_correct == (g.word@ == w@)
}

/// Whether two outcomes say the same: the same reason, messages spelled
/// alike, or the same feedback.
pub open spec fn same_outcome(a: GuessResult, b: GuessResult) -> bool {
    match (a, b) {
        (GuessResult::Valid(x), GuessResult::Valid(y)) => x.result@ == y.result@ && x.is_correct == y.is_correct,
        (GuessResult::Invalid(x), GuessResult::Invalid(y)) => match (x, y) {
            (InvalidGuess::InternalError(m), InvalidGuess::InternalError(n)) => m@ == n@,
            (InvalidGuess::NotEnoughLetters, InvalidGuess::NotEnoughLetters) => true,
            (InvalidGuess::TooManyLetters, InvalidGuess::TooManyLetters) => true,
            (InvalidGuess::InvalidLetter, InvalidGuess::InvalidLetter) => true,
            (InvalidGuess::NotInCorpus, InvalidGuess::NotInCorpus) => true,
            _ => false,
        },
        _ => false,
    }
}

/// The same guess against the same secret, with the same reply from the
/// registry, always has the same outcome.
pub proof fn lemma_outcome_determined(
    a: GuessResult,
    b: GuessResult,
    g: Guess,
    secret: Result<String, SelectError>,
    lookup: Option<RegistryReply>,
)
    requires
        secret_length(secret) >= 0 && g.word@.len() == secret_length(secret) && g.mode == GameMode::Hard
            ==> lookup is Some,
        outcome(a, g, secret, lookup),
        outcome(b, g, secret, lookup),
    ensures
        same_outcome(a, b),
{
}

/// Whether `s` spells `w`.
fn spells(s: &String, w: &Vec<char>) -> (r: bool)
    ensures
        r == (s@ == w@),
{
    let n = s.as_str().unicode_len();
    if n != w.len() {
        return false;
    }
    let mut i: usize = 0;
    while i < n
        invariant
            n == s@.len(),
            n == w@.len(),
            i <= n,
            forall|j: int| 0 <= j < i ==> s@[j] == w@[j],
        decreases n - i,
    {
        if s.as_str().get_char(i) != w[i] {
            return false;
        }
        i = i + 1;
    }
    assert(s@ =~= w@);
    true
}

/// The characters of a string, in order.
pub fn chars_of(s: &String) -> (r: Vec<char>)
    ensures
        r@ == s@,
{
    let n = s.as_str().unicode_len();
    let mut r: Vec<char> = Vec::new();
    let mut i: usize = 0;
    while i < n
        invariant
            n == s@.len(),
            i <= n,
            r@ == s@.subrange(0, i as int),
        decreases n - i,
    {
        r.push(s.as_str().get_char(i));
        assert(r@ =~= s@.subrange(0, i + 1));
        i = i + 1;
    }
    assert(r@ =~= s@);
    r
}

/// The secret's length in letters, or -1 where the secret could not be chosen.
pub fn num_letters(secret: &Result<String, SelectError>) -> (r: isize)
    ensures
        r == secret_length(*secret),
{
    match secret {
        Ok(w) => {
            let n = w.as_str().unicode_len();
            if n <= isize::MAX as usize {
                n as isize
            } else {
                -1
            }
        },
        Err(_) => -1,
    }
}

/// Judges a hard-mode guess by the registry's reply to an exact search for it.
pub fn corpus_verdict(word: &Vec<char>, reply: &RegistryReply) -> (r: Option<InvalidGuess>)
    ensures
        corpus_outcome(r, word@, *reply),
{
    match reply {
        RegistryReply::Failed(m) => Some(InvalidGuess::InternalError(m.clone())),
        RegistryReply::Answered(s) => {
            if s.status != STATUS_SUCCESS || s.num_found < 1 {
                return Some(InvalidGuess::NotInCorpus);
            }
            let mut i: usize = 0;
            while i < s.symbols.len()
                invariant
                    *reply == RegistryReply::Answered(*s),
                    s.status == STATUS_SUCCESS,
                    s.num_found >= 1,
                    i <= s.symbols@.len(),
                    forall|j: int| 0 <= j < i ==> s.symbols@[j]@ != word@,
                decreases s.symbols@.len() - i,
            {
                if spells(&s.symbols[i], word) {
                    assert(s.symbols@[i as int]@ == word@);
                    return None;
                }
                i = i + 1;
            }
            Some(InvalidGuess::NotInCorpus)
        },
    }
}

/// The checks that need no registry: the secret's length must be known and
/// equal to the guess's; a normal-mode guess is then accepted.
pub fn screen_guess(g: &Guess, secret_len: isize) -> (r: Screening)
    ensures
        r is NeedsLookup <==> (secret_len >= 0 && g.word@.len() == secret_len && g.mode == GameMode::Hard),
        r matches Screening::Settled(v) ==> validity(v, *g, secret_len as int, None),
{
    if secret_len < 0 {
        return Screening::Settled(Some(InvalidGuess::InternalError("Unable to fetch gene symbol".to_string())));
    }
    let len = secret_len as usize;
    if g.word.len() < len {
        Screening::Settled(Some(InvalidGuess::NotEnoughLetters))
    } else if g.word.len() > len {
        Screening::Settled(Some(InvalidGuess::TooManyLetters))
    } else if g.mode == GameMode::Normal {
        Screening::Settled(None)
    } else {
        Screening::NeedsLookup
    }
}

/// Validates a guess: the secret's length must be known and equal to the
/// guess's, and in hard mode the registry's exact search must know the guess.
pub fn valid_guess(g: &Guess, secret_len: isize, lookup: Option<&RegistryReply>) -> (r: Option<InvalidGuess>)
    requires
        secret_len >= 0 && g.word@.len() == secret_len && g.mode == GameMode::Hard ==> lookup is Some,
    ensures
        validity(r, *g, secret_len as int, lookup_of(lookup)),
{
    match screen_guess(g, secret_len) {
        Screening::Settled(v) => v,
        Screening::NeedsLookup => corpus_verdict(&g.word, lookup.unwrap()),
    }
}

/// Evaluates a guess against the session's secret: a guess that fails
/// validation is `Invalid` with the reason, any other is scored.
pub fn guess(g: &Guess, secret: &Result<String, SelectError>, lookup: Option<&RegistryReply>) -> (r: GuessResult)
    requires
        secret_length(*secret) >= 0 && g.word@.len() == secret_length(*secret) && g.mode == GameMode::Hard
            ==> lookup is Some,
    ensures
        outcome(r, *g, *secret, lookup_of(lookup)),
{
    let len = num_letters(secret);
    match valid_guess(g, len, lookup) {
        Some(reason) => GuessResult::Invalid(reason),
        None => {
            match secret {
                Ok(w) => {
                    let s = chars_of(w);
                    GuessResult::Valid(score(&g.word, &s))
                },
                // an unknown secret already failed validation
                Err(e) => GuessResult::Invalid(InvalidGuess::InternalError(e.message())),
            }
        },
    }
}

} // verus!
