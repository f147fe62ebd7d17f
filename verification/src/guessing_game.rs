//! A number guessing game: the game picks a secret number from 1 to 100,
//! the player sends lines of text, and the game tells of each line that
//! holds a number whether that number is too small, too big or the secret.
//!
//! The module decides; reading the lines and printing the answers is left
//! to the caller.

use crate::text::{trim, trimmed};
use rand::Rng;
use vstd::prelude::*;
use vstd::string::*;

verus! {

/// The least number that can be the secret.
pub const LOWEST: u32 = 1;

/// The greatest number that can be the secret.
pub const HIGHEST: u32 = 100;

/// Whether `c` is one of the digits `0` to `9`.
pub open spec fn is_digit(c: char) -> bool {
    '0' <= c <= '9'
}

/// Every character of `s` is a digit.
pub open spec fn is_all_digits(s: Seq<char>) -> bool {
    forall|i: int| 0 <= i < s.len() ==> is_digit(#[trigger] s[i])
}

/// The number that the digits `s` write in base ten.
pub open spec fn digits_value(s: Seq<char>) -> nat
    decreases s.len(),
{
    if s.len() == 0 {
        0
    } else {
        (digits_value(s.drop_last()) * 10 + (s.last() as u32 - '0' as u32)) as nat
    }
}

/// `s` without the one `+` that may stand at its start.
pub open spec fn without_plus(s: Seq<char>) -> Seq<char> {
    if s.len() > 0 && s[0] == '+' {
        s.skip(1)
    } else {
        s
    }
}

/// The number that `s` writes, if it writes one that fits in 32 bits: an
/// optional `+`, then one digit or more and nothing else.
pub open spec fn parsed_number(s: Seq<char>) -> Option<u32> {
    let digits = without_plus(s);
    if digits.len() > 0 && is_all_digits(digits) && digits_value(digits) <= u32::MAX {
        Some(digits_value(digits) as u32)
    } else {
        None
    }
}

/// The guess that a line of input holds: the number written on it, white
/// space at either end set aside.
pub open spec fn parsed_guess(line: Seq<char>) -> Option<u32> {
    parsed_number(trimmed(line))
}

/// Digits that go on from other digits write a number that is no smaller.
pub proof fn lemma_digits_value_grows(s: Seq<char>, n: int)
    requires
        0 <= n <= s.len(),
        is_all_digits(s),
    ensures
        digits_value(s.take(n)) <= digits_value(s),
    decreases s.len() - n,
{
    if n < s.len() {
        assert(s.take(n + 1).drop_last() =~= s.take(n));
        lemma_digits_value_grows(s, n + 1);
    } else {
        assert(s.take(n) =~= s);
    }
}

/// Reads the number that `text` writes; `None` where it writes none or one
/// that does not fit in 32 bits.
pub fn parse_number(text: &str) -> (r: Option<u32>)
    ensures
        r == parsed_number(text@),
{
    let n = text.unicode_len();
    if n == 0 {
        return None;
    }
    let from: usize = if text.get_char(0) == '+' {
        1
    } else {
        0
    };
    if from == n {
        return None;
    }
    let digits = text.substring_char(from, n);
    let mut value: u64 = 0;
    let mut i: usize = 0;
    for c in it: digits.chars()
        invariant
            it.seq() == digits@,
            i == it.index(),
            digits@ == without_plus(text@),
            digits@.len() > 0,
            i <= digits@.len() <= usize::MAX,
            is_all_digits(digits@.take(i as int)),
            value == digits_value(digits@.take(i as int)),
            value <= u32::MAX,
    {
        if c < '0' || c > '9' {
            return None;
        }
        proof {
            assert(digits@.take(i + 1).drop_last() =~= digits@.take(i as int));
            assert forall|k: int| 0 <= k < i + 1 implies is_digit(
                #[trigger] digits@.take(i + 1)[k],
            ) by {}
        }
        value = value * 10 + (c as u32 - '0' as u32) as u64;
        if value > u32::MAX as u64 {
            proof {
                if is_all_digits(digits@) {
                    lemma_digits_value_grows(digits@, i + 1);
                }
            }
            return None;
        }
        i += 1;
    }
    assert(digits@.take(i as int) =~= digits@);
    Some(value as u32)
}

/// Reads the guess on a line of input; `None` where the line holds no
/// number.
pub fn parse_guess(line: &str) -> (r: Option<u32>)
    ensures
        r == parsed_guess(line@),
{
    parse_number(trim(line))
}

/// What the player is told about a guess.
#[derive(Clone, Copy, Debug, PartialEq, Eq, Structural)]
pub enum Hint {
    /// The guess is below the secret.
    TooSmall,
    /// The guess is above the secret.
    TooBig,
    /// The guess is the secret.
    Win,
}

/// The hint that `guess` earns where the secret is `secret`.
pub open spec fn hint_for(guess: u32, secret: u32) -> Hint {
    if guess < secret {
        Hint::TooSmall
    } else if guess > secret {
        Hint::TooBig
    } else {
        Hint::Win
    }
}

impl Hint {
    /// The words in which the player is told.
    pub fn message(&self) -> (text: &'static str)
        ensures
            text@ == match *self {
                Hint::TooSmall => "Too small!"@,
                Hint::TooBig => "Too big!"@,
                Hint::Win => "You win!"@,
            },
    {
        match self {
            Hint::TooSmall => "Too small!",
            Hint::TooBig => "Too big!",
            Hint::Win => "You win!",
        }
    }
}

/// How the game answers a line of input.
#[derive(Clone, Copy, Debug, PartialEq, Eq, Structural)]
pub enum Reply {
    /// The line holds no number: the game says nothing and asks again.
    AskAgain,
    /// The line holds `guess`, which earns `hint`.
    Judged { guess: u32, hint: Hint },
}

/// The answer to `line` where the secret is `secret`.
pub open spec fn reply_for(line: Seq<char>, secret: u32) -> Reply {
    match parsed_guess(line) {
        Some(guess) => Reply::Judged { guess, hint: hint_for(guess, secret) },
        None => Reply::AskAgain,
    }
}

impl Reply {
    /// Whether the game is over after this answer: it is once the secret
    /// has been guessed, and not before.
    pub fn ends_game(&self) -> (over: bool)
        ensures
            over == (*self matches Reply::Judged { hint: Hint::Win, .. }),
    {
        match self {
            Reply::Judged { hint: Hint::Win, .. } => true,
            _ => false,
        }
    }
}

/// Draws a number by chance, with `rand::Rng::gen_range` on the generator
/// that `rand::thread_rng` gives. The contract claims what `gen_range`
/// documents: the number is at least `low` and less than `high`. Which one
/// it is, is left open. `gen_range` panics where `low` is not below `high`,
/// so the call is not offered there. `thread_rng` panics where the system
/// has no seed to give; no argument decides that.
#[verifier::external_body]
fn random_in_range(low: u32, high: u32) -> (r: u32)
    requires
        low < high,
    ensures
        low <= r < high,
{
    rand::thread_rng().gen_range(low, high)
}

/// A game in progress: the secret that the player is after.
pub struct Game {
    secret: u32,
}

impl Game {
    /// The number to be guessed.
    pub closed spec fn secret_number(&self) -> u32 {
        self.secret
    }

    /// The secret is one of the numbers from [`LOWEST`] to [`HIGHEST`].
    pub open spec fn well_formed(&self) -> bool {
        LOWEST <= self.secret_number() <= HIGHEST
    }

    /// Starts a game with a secret drawn by chance.
    pub fn new() -> (game: Game)
        ensures
            game.well_formed(),
    {
        Game { secret: random_in_range(LOWEST, HIGHEST + 1) }
    }

    /// Starts a game with the given secret, if it is one of the numbers from
    /// [`LOWEST`] to [`HIGHEST`].
    pub fn with_secret(secret: u32) -> (game: Option<Game>)
        ensures
            game is Some <==> LOWEST <= secret <= HIGHEST,
            game matches Some(g) ==> g.secret_number() == secret && g.well_formed(),
    {
        if LOWEST <= secret && secret <= HIGHEST {
            Some(Game { secret })
        } else {
            None
        }
    }

    /// The number to be guessed.
    pub fn secret(&self) -> (secret: u32)
        ensures
            secret == self.secret_number(),
    {
        self.secret
    }

    /// Compares a guess with the secret.
    pub fn judge(&self, guess: u32) -> (hint: Hint)
        ensures
            hint == hint_for(guess, self.secret_number()),
    {
        if guess < self.secret {
            Hint::TooSmall
        } else if guess > self.secret {
            Hint::TooBig
        } else {
            Hint::Win
        }
    }

    /// Answers one line of input: a line that holds a number is judged, any
    /// other line is passed over. The game itself stays as it is.
    pub fn answer(&self, line: &str) -> (reply: Reply)
        ensures
            reply == reply_for(line@, self.secret_number()),
    {
        match parse_guess(line) {
            Some(guess) => Reply::Judged { guess, hint: self.judge(guess) },
            None => Reply::AskAgain,
        }
    }
}

/// A guess is answered with `Win` exactly if it is the secret.
pub proof fn lemma_win_iff_secret(guess: u32, secret: u32)
    ensures
        hint_for(guess, secret) == Hint::Win <==> guess == secret,
{
}

} // verus!
