//! What makes two requests differ: a random nonce and the time.
use vstd::prelude::*;

verus! {

/// The number of characters in a nonce.
pub const NONCE_LENGTH: usize = 32;

/// The letters and digits of ASCII.
pub open spec fn is_alphanumeric(c: char) -> bool {
    ('A' <= c && c <= 'Z') || ('a' <= c && c <= 'z') || ('0' <= c && c <= '9')
}

/// A nonce is made of `NONCE_LENGTH` letters and digits.
pub open spec fn is_nonce(text: Seq<char>) -> bool {
    &&& text.len() == NONCE_LENGTH
    &&& forall|i: int| 0 <= i < text.len() ==> is_alphanumeric(#[trigger] text[i])
}

/// The letter or digit that a number selects out of
/// `A`..`Z`, `a`..`z`, `0`..`9`, counted round.
pub open spec fn alphanumeric(number: u32) -> char {
    let k = number as int % 62;
    if k < 26 {
        ((0x41 + k) as u8) as char
    } else if k < 52 {
        ((0x61 + k - 26) as u8) as char
    } else {
        ((0x30 + k - 52) as u8) as char
    }
}

/// `rand::random::<u32>()`: a number from the generator of the thread.
/// Any number may come back. The generator gives up where the system has
/// no randomness to seed it with.
#[verifier::external_body]
fn random_number() -> u32 {
    rand::random()
}

/// `chrono::Utc::now()` and `timestamp()` of it: the clock of the
/// machine in whole seconds since 1970-01-01 00:00:00 UTC. Any number may
/// come back. `chrono` gives up where the clock stands before that
/// moment.
#[verifier::external_body]
pub(crate) fn clock_seconds() -> i64 {
    chrono::Utc::now().timestamp()
}

/// Selects a letter or a digit by a number.
pub fn pick_alphanumeric(number: u32) -> (c: char)
    ensures
        c == alphanumeric(number),
        is_alphanumeric(c),
{
    let k: u8 = (number % 62) as u8;
    if k < 26 {
        (0x41 + k) as char
    } else if k < 52 {
        (0x61 + (k - 26)) as char
    } else {
        (0x30 + (k - 52)) as char
    }
}

/// Draws a nonce.
pub fn fresh_nonce() -> (nonce: String)
    ensures
        is_nonce(nonce@),
{
    let mut nonce = String::new();
    let mut i: usize = 0;
    while i < NONCE_LENGTH
        invariant
            i <= NONCE_LENGTH,
            nonce@.len() == i,
            forall|j: int| 0 <= j < nonce@.len() ==> is_alphanumeric(#[trigger] nonce@[j]),
        decreases NONCE_LENGTH - i,
    {
        let c = pick_alphanumeric(random_number());
        nonce.push(c);
        i += 1;
    }
    nonce
}

} // verus!
