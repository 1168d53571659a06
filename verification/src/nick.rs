//! The identity of a session: a fixed prefix followed by a number drawn
//! anew for each session, written in decimal.

use vstd::prelude::*;
use crate::wire::{append, is_token};

verus! {

/// `promirc_`
pub open spec fn nick_prefix() -> Seq<u8> {
    seq![112u8, 114u8, 111u8, 109u8, 105u8, 114u8, 99u8, 95u8]
}

/// The decimal digits of a number, most significant first.
pub open spec fn digits_of(n: nat) -> Seq<u8>
    decreases n,
{
    if n < 10 {
        seq![(48 + n) as u8]
    } else {
        digits_of(n / 10).push((48 + n % 10) as u8)
    }
}

/// A signed number in decimal, with a minus sign where it is negative.
pub open spec fn decimal_of(n: int) -> Seq<u8> {
    if n < 0 {
        seq![45u8] + digits_of((-n) as nat)
    } else {
        digits_of(n as nat)
    }
}

/// The nickname made from a drawn number.
pub open spec fn nickname_of(seed: i32) -> Seq<u8> {
    nick_prefix() + decimal_of(seed as int)
}

/// The decimal digits of a number are digits, and at least one.
pub proof fn lemma_digits_of(n: nat)
    ensures
        digits_of(n).len() >= 1,
        forall|i: int| 0 <= i < digits_of(n).len() ==> 48 <= #[trigger] digits_of(n)[i] <= 57,
    decreases n,
{
    if n >= 10 {
        lemma_digits_of(n / 10);
    }
}

/// Every nickname can stand as one parameter of a command.
pub proof fn lemma_nickname_is_token(seed: i32)
    ensures
        is_token(nickname_of(seed)),
{
    let n = seed as int;
    let s = nickname_of(seed);
    if n < 0 {
        lemma_digits_of((-n) as nat);
    } else {
        lemma_digits_of(n as nat);
    }
    assert forall|i: int| 0 <= i < s.len() implies #[trigger] s[i] != 0 && s[i] != 10 && s[i] != 13
        && s[i] != 32 by {
        if i >= 8 {
            if n < 0 {
                if i >= 9 {
                    assert(s[i] == digits_of((-n) as nat)[i - 9]);
                }
            } else {
                assert(s[i] == digits_of(n as nat)[i - 8]);
            }
        }
    }
}

/// Calls `rand::random::<i32>()`, which draws from the thread's generator.
/// Trusted: nothing is claimed of the number drawn.
#[verifier::external_body]
fn random_seed() -> (seed: i32) {
    rand::random::<i32>()
}

fn push_digits(out: &mut Vec<u8>, n: u64)
    ensures
        final(out)@ == old(out)@ + digits_of(n as nat),
    decreases n,
{
    if n >= 10 {
        push_digits(out, n / 10);
    }
    out.push((48 + n % 10) as u8);
    proof {
        assert(out@ =~= old(out)@ + digits_of(n as nat));
    }
}

/// The nickname for a drawn number: the prefix, then the number in decimal.
pub fn nickname_from(seed: i32) -> (nick: Vec<u8>)
    ensures
        nick@ == nickname_of(seed),
        is_token(nick@),
{
    let mut nick: Vec<u8> = Vec::new();
    append(&mut nick, &vec![112u8, 114u8, 111u8, 109u8, 105u8, 114u8, 99u8, 95u8]);
    let wide: i64 = seed as i64;
    if wide < 0 {
        nick.push(45);
        push_digits(&mut nick, (-wide) as u64);
    } else {
        push_digits(&mut nick, wide as u64);
    }
    proof {
        assert(nick@ =~= nickname_of(seed));
        lemma_nickname_is_token(seed);
    }
    nick
}

/// A nickname for a new session, from a freshly drawn number. Which number
/// is drawn is open; the shape of the nickname is not.
pub fn fresh_nickname() -> (nick: Vec<u8>)
    ensures
        exists|seed: i32| nick@ == nickname_of(seed),
        is_token(nick@),
{
    nickname_from(random_seed())
}

} // verus!
