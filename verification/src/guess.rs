//! The number guessing game: a secret number between 1 and 9, guesses
//! counted and recorded until one hits it.

use std::collections::HashMap;
use rand::Rng;
use vstd::prelude::*;

verus! {

broadcast use vstd::std_specs::hash::group_hash_axioms;

/// The smallest secret number.
pub const SECRET_MIN: u32 = 1;

/// One past the largest secret number.
pub const SECRET_END: u32 = 10;

/// How a guess compares with the secret number.
#[derive(Clone, Copy, Debug, PartialEq, Eq, Structural)]
pub enum Verdict {
    /// The guess is below the secret number.
    TooSmall,
    /// The guess is above the secret number.
    TooBig,
    /// The guess is the secret number.
    Win,
}

/// The verdict on `guess` for the secret number `secret`.
pub open spec fn verdict_of(guess: u32, secret: u32) -> Verdict {
    if guess < secret {
        Verdict::TooSmall
    } else if guess > secret {
        Verdict::TooBig
    } else {
        Verdict::Win
    }
}

/// The verdict says on which side of the secret the guess lies: a win
/// exactly when the guess is the secret.
pub proof fn lemma_verdict_sides(guess: u32, secret: u32)
    ensures
        (verdict_of(guess, secret) == Verdict::Win) <==> guess == secret,
        (verdict_of(guess, secret) == Verdict::TooSmall) <==> guess < secret,
        (verdict_of(guess, secret) == Verdict::TooBig) <==> guess > secret,
{
}

/// Draws a number in `[low, high)` from the thread-local random generator of
/// `rand`, with `Rng::gen_range`. The contract claims only that the number
/// lies in the range, as `rand` documents for every outcome.
#[verifier::external_body]
fn random_in_range(low: u32, high: u32) -> (r: u32)
    requires
        low < high,
    ensures
        low <= r < high,
{
    rand::thread_rng().gen_range(low, high)
}

/// A game in progress.
pub struct Game {
    secret: u32,
    attempts: i32,
    history: HashMap<i32, u32>,
}

impl Game {
    /// The number to guess.
    pub closed spec fn secret_spec(&self) -> u32 {
        self.secret
    }

    /// How many guesses were made so far.
    pub closed spec fn attempts_spec(&self) -> int {
        self.attempts as int
    }

    /// The guesses so far, by the number of the attempt that made them.
    pub closed spec fn history_spec(&self) -> Map<i32, u32> {
        self.history@
    }

    /// The history records exactly the attempts `1..=attempts`.
    pub open spec fn wf(&self) -> bool {
        &&& 0 <= self.attempts_spec() <= i32::MAX
        &&& self.history_spec().dom() =~= Set::new(
            |k: i32| 1 <= k <= self.attempts_spec(),
        )
    }

    /// A game with a secret number drawn at random between 1 and 9.
    pub fn new() -> (g: Game)
        ensures
            g.wf(),
            SECRET_MIN <= g.secret_spec() < SECRET_END,
            g.attempts_spec() == 0,
            g.history_spec() == Map::<i32, u32>::empty(),
    {
        let secret = random_in_range(SECRET_MIN, SECRET_END);
        Game::with_secret(secret)
    }

    /// A game on the given secret number.
    pub fn with_secret(secret: u32) -> (g: Game)
        ensures
            g.wf(),
            g.secret_spec() == secret,
            g.attempts_spec() == 0,
            g.history_spec() == Map::<i32, u32>::empty(),
    {
        Game { secret, attempts: 0, history: HashMap::new() }
    }

    /// Counts and records the guess `guess` and says how it compares with the
    /// secret number.
    pub fn guess(&mut self, guess: u32) -> (v: Verdict)
        requires
            old(self).wf(),
            old(self).attempts_spec() < i32::MAX,
        ensures
            final(self).wf(),
            v == verdict_of(guess, old(self).secret_spec()),
            final(self).secret_spec() == old(self).secret_spec(),
            final(self).attempts_spec() == old(self).attempts_spec() + 1,
            final(self).history_spec() == old(self).history_spec().insert(
                final(self).attempts_spec() as i32,
                guess,
            ),
    {
        self.attempts = self.attempts + 1;
        self.history.insert(self.attempts, guess);
        if guess < self.secret {
            Verdict::TooSmall
        } else if guess > self.secret {
            Verdict::TooBig
        } else {
            Verdict::Win
        }
    }

    /// How many guesses were made so far.
    pub fn attempts(&self) -> (n: i32)
        ensures
            n == self.attempts_spec(),
    {
        self.attempts
    }

    /// The guesses so far, by the number of the attempt that made them.
    pub fn history(&self) -> (h: &HashMap<i32, u32>)
        ensures
            h@ == self.history_spec(),
    {
        &self.history
    }
}

} // verus!
