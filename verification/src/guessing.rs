//! The rules of a number guessing game: a secret is drawn, and each guess is
//! told to be too small, too big, or right.

use crate::numeral::{chars_of, read_u32, trim, trimmed, written_u32};
use vstd::prelude::*;

verus! {

/// The least number that can be the secret.
pub const SECRET_MIN: u32 = 0;

/// The bound that every secret stays below.
pub const SECRET_BOUND: u32 = 100;

/// What a player is told about a guess.
#[derive(Clone, Copy, Debug, PartialEq, Eq, Structural)]
pub enum Verdict {
    TooSmall,
    TooBig,
    Win,
}

/// The guess that a line of input makes: the number it writes once the
/// white space around it is set aside, and none where that is no `u32`.
pub fn read_guess(line: &str) -> (guess: Option<u32>)
    ensures
        guess == written_u32(trimmed(line@)),
{
    let chars = chars_of(line);
    read_u32(trim(chars.as_slice()))
}

/// Compares a guess with the secret.
pub fn judge(guess: u32, secret: u32) -> (v: Verdict)
    ensures
        guess < secret ==> v == Verdict::TooSmall,
        guess > secret ==> v == Verdict::TooBig,
        guess == secret ==> v == Verdict::Win,
{
    if guess < secret {
        Verdict::TooSmall
    } else if guess > secret {
        Verdict::TooBig
    } else {
        Verdict::Win
    }
}

/// Calls `rand::random_range` on the range `low..high`, which draws from the
/// thread's generator. Nothing is proved of the call; relied on is that the
/// number drawn lies in the range, as the crate documents, and that the call
/// returns where the range is not empty.
#[verifier::external_body]
fn random_between(low: u32, high: u32) -> (n: u32)
    requires
        low < high,
    ensures
        low <= n < high,
{
    rand::random_range(low..high)
}

/// Draws the secret of a new game.
pub fn pick_secret() -> (secret: u32)
    ensures
        SECRET_MIN <= secret < SECRET_BOUND,
{
    random_between(SECRET_MIN, SECRET_BOUND)
}

} // verus!
