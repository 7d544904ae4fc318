//! Derivation of the shift schedule from a key string, with validation.
//!
//! A key is usable when it has at least one character and every character
//! is a Latin letter; each letter contributes its alphabet position as a
//! shift, so the key's casing is irrelevant.  Anything else is rejected at
//! construction time with [`VigenereError::InvalidKey`], before a single
//! character of input is processed.

use vstd::prelude::*;
use crate::alphabet::{is_letter, is_letter_exec, letter_value, letter_value_exec};
use crate::model::valid_schedule;

verus! {

/// Failure reported when a transform is constructed.
#[derive(Clone, Copy, Debug, PartialEq, Eq, Structural)]
pub enum VigenereError {
    /// The key is empty or holds a character outside the Latin alphabet.
    InvalidKey,
}

/// A usable key: at least one character, all of them Latin letters.
pub open spec fn valid_key(key: Seq<char>) -> bool {
    &&& key.len() > 0
    &&& forall|i: int| 0 <= i < key.len() ==> is_letter(key[i])
}

/// The shift schedule a key gives rise to: each letter's alphabet
/// position, in key order.
pub open spec fn schedule_of(key: Seq<char>) -> Seq<u8>
    recommends
        valid_key(key),
{
    Seq::new(key.len(), |i: int| letter_value(key[i]) as u8)
}

/// The schedule of a usable key is itself usable.
pub proof fn lemma_schedule_of_valid(key: Seq<char>)
    requires
        valid_key(key),
    ensures
        valid_schedule(schedule_of(key)),
        schedule_of(key).len() == key.len(),
{
}

/// Builds the shift schedule of a key, rejecting an empty key and a key
/// with a character outside the Latin alphabet.
pub fn build_schedule(key: &str) -> (r: Result<Vec<u8>, VigenereError>)
    ensures
        r is Ok <==> valid_key(key@),
        r matches Ok(sched) ==> sched@ == schedule_of(key@),
{
    let n = key.unicode_len();
    if n == 0 {
        return Err(VigenereError::InvalidKey);
    }
    let mut sched: Vec<u8> = Vec::new();
    let mut i: usize = 0;
    while i < n
        invariant
            n == key@.len(),
            i <= n,
            forall|j: int| 0 <= j < i ==> is_letter(key@[j]),
            sched@ =~= schedule_of(key@).take(i as int),
        decreases n - i,
    {
        let c = key.get_char(i);
        if is_letter_exec(c) {
            sched.push(letter_value_exec(c));
        } else {
            return Err(VigenereError::InvalidKey);
        }
        i += 1;
    }
    proof {
        assert(sched@ =~= schedule_of(key@));
    }
    Ok(sched)
}

} // verus!
