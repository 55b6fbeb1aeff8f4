use vstd::prelude::*;

verus! {

/// Feedback for one position of a guess.
#[derive(Debug, Clone, Copy, PartialEq, Eq, Structural)]
pub enum LetterFeedback {
    Correct,
    Present,
    Absent,
}

/// A guess of the right length, scored.
#[derive(Debug, Clone, PartialEq, Eq)]
pub struct ValidGuess {
    pub is_correct: bool,
    pub result: Vec<LetterFeedback>,
}

/// Number of positions `j < n` at which the secret holds `c` and the guess
/// does not match the secret: the copies of `c` left over after exact matches.
pub open spec fn spare(guess: Seq<char>, secret: Seq<char>, c: char, n: int) -> nat
    decreases n,
{
    if n <= 0 {
        0
    } else {
        spare(guess, secret, c, n - 1) + if secret[n - 1] == c && guess[n - 1] != secret[n - 1] {
            1nat
        } else {
            0nat
        }
    }
}

/// Number of positions `j < n` at which the guess holds `c` without matching
/// the secret: the earlier claims on the spare copies of `c`.
pub open spec fn claims(guess: Seq<char>, secret: Seq<char>, c: char, n: int) -> nat
    decreases n,
{
    if n <= 0 {
        0
    } else {
        claims(guess, secret, c, n - 1) + if guess[n - 1] == c && guess[n - 1] != secret[n - 1] {
            1nat
        } else {
            0nat
        }
    }
}

/// The feedback at position `i`: exact matches are `Correct`; a mismatched
/// letter is `Present` while spare copies of it remain in the secret for it,
/// claimed left to right, and `Absent` otherwise.
pub open spec fn feedback_at(guess: Seq<char>, secret: Seq<char>, i: int) -> LetterFeedback {
    if guess[i] == secret[i] {
        LetterFeedback::Correct
    } else if claims(guess, secret, guess[i], i) < spare(guess, secret, guess[i], secret.len() as int) {
        LetterFeedback::Present
    } else {
        LetterFeedback::Absent
    }
}

/// The whole feedback row for a guess against a secret of the same length.
pub open spec fn feedback(guess: Seq<char>, secret: Seq<char>) -> Seq<LetterFeedback> {
    Seq::new(secret.len(), |i: int| feedback_at(guess, secret, i))
}

/// Counts the positions below `n` that `spare` counts.
fn count_spare(guess: &Vec<char>, secret: &Vec<char>, c: char, n: usize) -> (r: usize)
    requires
        guess@.len() == secret@.len(),
        n <= secret@.len(),
    ensures
        r == spare(guess@, secret@, c, n as int),
{
    let mut k: usize = 0;
    let mut j: usize = 0;
    while j < n
        invariant
            guess@.len() == secret@.len(),
            n <= secret@.len(),
            j <= n,
            k == spare(guess@, secret@, c, j as int),
            k <= j,
        decreases n - j,
    {
        if secret[j] == c && guess[j] != secret[j] {
            k = k + 1;
        }
        j = j + 1;
    }
    k
}

/// Counts the positions below `n` that `claims` counts.
fn count_claims(guess: &Vec<char>, secret: &Vec<char>, c: char, n: usize) -> (r: usize)
    requires
        guess@.len() == secret@.len(),
        n <= secret@.len(),
    ensures
        r == claims(guess@, secret@, c, n as int),
{
    let mut k: usize = 0;
    let mut j: usize = 0;
    while j < n
        invariant
            guess@.len() == secret@.len(),
            n <= secret@.len(),
            j <= n,
            k == claims(guess@, secret@, c, j as int),
            k <= j,
        decreases n - j,
    {
        if guess[j] == c && guess[j] != secret[j] {
            k = k + 1;
        }
        j = j + 1;
    }
    k
}

/// Scores a guess against a secret of the same length: exact matches first,
/// then mismatched letters against the secret's remaining letters, left to right.
pub fn score(guess: &Vec<char>, secret: &Vec<char>) -> (r: ValidGuess)
    requires
        guess@.len() == secret@.len(),
    ensures
        r.result@ == feedback(guess@, secret@),
        r.is_correct == (guess@ == secret@),
{
    let n = secret.len();
    let mut result: Vec<LetterFeedback> = Vec::new();
    let mut all_correct = true;
    let mut i: usize = 0;
    assert(guess@.subrange(0, 0) =~= secret@.subrange(0, 0));
    while i < n
        invariant
            n == secret@.len(),
            guess@.len() == secret@.len(),
            i <= n,
            result@ == feedback(guess@, secret@).subrange(0, i as int),
            all_correct == (guess@.subrange(0, i as int) == secret@.subrange(0, i as int)),
        decreases n - i,
    {
        let g = guess[i];
        let fb = if g == secret[i] {
            LetterFeedback::Correct
        } else {
            let before = count_claims(guess, secret, g, i);
            let spare_total = count_spare(guess, secret, g, n);
            if before < spare_total {
                LetterFeedback::Present
            } else {
                LetterFeedback::Absent
            }
        };
        if g != secret[i] {
            all_correct = false;
        }
        proof {
            assert(guess@.subrange(0, i + 1) =~= guess@.subrange(0, i as int).push(g));
            assert(secret@.subrange(0, i + 1) =~= secret@.subrange(0, i as int).push(secret@[i as int]));
            if guess@.subrange(0, i + 1) == secret@.subrange(0, i + 1) {
                assert(guess@.subrange(0, i + 1)[i as int] == secret@.subrange(0, i + 1)[i as int]);
                assert(guess@.subrange(0, i as int) =~= guess@.subrange(0, i + 1).drop_last());
                assert(secret@.subrange(0, i as int) =~= secret@.subrange(0, i + 1).drop_last());
            }
        }
        result.push(fb);
        assert(result@ =~= feedback(guess@, secret@).subrange(0, i + 1));
        i = i + 1;
    }
    assert(guess@.subrange(0, n as int) =~= guess@);
    assert(secret@.subrange(0, n as int) =~= secret@);
    assert(result@ =~= feedback(guess@, secret@));
    ValidGuess { is_correct: all_correct, result }
}

} // verus!
