//! The Vigenère polyalphabetic substitution cipher.
//!
//! A key made of Latin letters is turned into a schedule of shift amounts,
//! one per key letter.  Encrypting rotates each letter of the input forward
//! through the alphabet by the shift at the current schedule position and
//! then advances that position, wrapping around at the end of the schedule;
//! decrypting rotates backward.  Non-letter characters never consume a
//! schedule position: they are passed through unchanged or dropped,
//! according to a configurable policy, and the casing of transformed
//! letters can be kept or forced in either direction.
//!
//! [`Vigenere`] offers the whole-string convenience interface;
//! [`iterator::VigenereIterator`] is the underlying lazy per-character
//! transform.

use vstd::prelude::*;

pub mod alphabet;
pub mod model;
pub mod schedule;
pub mod iterator;

use crate::alphabet::is_letter_exec;
use crate::alphabet::is_upper_exec;
use crate::alphabet::letter_of_exec;
use crate::alphabet::letter_value_exec;
use crate::model::transform;
use crate::model::valid_schedule;
use crate::model::ForceCase;
use crate::model::NonLetterMode;
use crate::model::VigenereMode;
use crate::model::shifted_value_exec;
use crate::schedule::build_schedule;
use crate::schedule::lemma_schedule_of_valid;
use crate::schedule::schedule_of;
use crate::schedule::valid_key;
use crate::schedule::VigenereError;

verus! {

/// Relies on String::push: appends the given character at the end.
#[verifier::external_body]
fn push_char(s: &mut String, c: char)
    ensures
        final(s)@ == old(s)@.push(c),
{
    s.push(c)
}

/// One whole-string pass of the transform: every character of `text` is
/// fed through the per-character step and the emitted characters are
/// concatenated.
fn transform_str(
    mode: VigenereMode,
    sched: &Vec<u8>,
    text: &str,
    force_case: ForceCase,
    non_letter_mode: NonLetterMode,
) -> (r: String)
    requires
        valid_schedule(sched@),
    ensures
        r@ == transform(mode, sched@, 0, text@, force_case, non_letter_mode),
{
    let n = text.unicode_len();
    let len = sched.len();
    let mut out = String::new();
    let mut cur: usize = 0;
    let mut i: usize = 0;
    proof {
        assert(text@.skip(0) =~= text@);
        assert(out@ + transform(mode, sched@, 0, text@, force_case, non_letter_mode) =~= transform(
            mode,
            sched@,
            0,
            text@,
            force_case,
            non_letter_mode,
        ));
    }
    while i < n
        invariant
            n == text@.len(),
            i <= n,
            len == sched@.len(),
            valid_schedule(sched@),
            cur < len,
            transform(mode, sched@, 0, text@, force_case, non_letter_mode) == out@ + transform(
                mode,
                sched@,
                cur as int,
                text@.skip(i as int),
                force_case,
                non_letter_mode,
            ),
        decreases n - i,
    {
        let c = text.get_char(i);
        proof {
            assert(text@.skip(i as int)[0] == c);
            assert(text@.skip(i as int).drop_first() =~= text@.skip(i as int + 1));
        }
        if is_letter_exec(c) {
            let v = letter_value_exec(c);
            let d = sched[cur];
            let sv = shifted_value_exec(mode, v, d);
            let out_upper = match force_case {
                ForceCase::Keep => is_upper_exec(c),
                ForceCase::ToLower => false,
                ForceCase::ToUpper => true,
            };
            let oc = letter_of_exec(sv, out_upper);
            push_char(&mut out, oc);
            cur = (cur + 1) % len;
            proof {
                assert(out@ + transform(
                    mode,
                    sched@,
                    cur as int,
                    text@.skip(i as int + 1),
                    force_case,
                    non_letter_mode,
                ) =~= out@.drop_last() + (seq![oc] + transform(
                    mode,
                    sched@,
                    cur as int,
                    text@.skip(i as int + 1),
                    force_case,
                    non_letter_mode,
                )));
            }
        } else {
            match non_letter_mode {
                NonLetterMode::Keep => {
                    push_char(&mut out, c);
                    proof {
                        assert(out@ + transform(
                            mode,
                            sched@,
                            cur as int,
                            text@.skip(i as int + 1),
                            force_case,
                            non_letter_mode,
                        ) =~= out@.drop_last() + (seq![c] + transform(
                            mode,
                            sched@,
                            cur as int,
                            text@.skip(i as int + 1),
                            force_case,
                            non_letter_mode,
                        )));
                    }
                },
                NonLetterMode::Skip => {},
            }
        }
        i += 1;
    }
    proof {
        assert(text@.skip(n as int) =~= Seq::<char>::empty());
        assert(out@ + Seq::<char>::empty() =~= out@);
    }
    out
}

/// Struct to encrypt or decrypt a string slice using the Vigenère cipher.
pub struct Vigenere {
    distances: Vec<u8>,
}

impl View for Vigenere {
    type V = Seq<u8>;

    /// The shift schedule this cipher was built with.
    closed spec fn view(&self) -> Seq<u8> {
        self.distances@
    }
}

impl Vigenere {
    /// Well-formedness: the stored schedule is usable.  Every value built
    /// by [`Vigenere::new`] satisfies it.
    pub open spec fn wf(self) -> bool {
        valid_schedule(self@)
    }

    /// Creates a cipher bound to the given key.  An empty key and a key
    /// with a non-letter character are rejected before any input is
    /// processed.
    pub fn new(key: &str) -> (r: Result<Self, VigenereError>)
        ensures
            r is Ok <==> valid_key(key@),
            r matches Ok(v) ==> v@ == schedule_of(key@) && v.wf(),
    {
        match build_schedule(key) {
            Ok(distances) => {
                proof {
                    lemma_schedule_of_valid(key@);
                }
                Ok(Vigenere { distances })
            },
            Err(e) => Err(e),
        }
    }

    /// Encrypts the provided plain text and returns the resulting cipher
    /// text; both policies are at their `Keep` default, so the output has
    /// one character for each input character.
    pub fn encrypt(&self, plain_text: &str) -> (r: String)
        requires
            self.wf(),
        ensures
            r@ == transform(
                VigenereMode::Encrypt,
                self@,
                0,
                plain_text@,
                ForceCase::Keep,
                NonLetterMode::Keep,
            ),
    {
        transform_str(
            VigenereMode::Encrypt,
            &self.distances,
            plain_text,
            ForceCase::Keep,
            NonLetterMode::Keep,
        )
    }

    /// Decrypts the provided cipher text and returns the resulting plain
    /// text; both policies are at their `Keep` default.
    pub fn decrypt(&self, cipher_text: &str) -> (r: String)
        requires
            self.wf(),
        ensures
            r@ == transform(
                VigenereMode::Decrypt,
                self@,
                0,
                cipher_text@,
                ForceCase::Keep,
                NonLetterMode::Keep,
            ),
    {
        transform_str(
            VigenereMode::Decrypt,
            &self.distances,
            cipher_text,
            ForceCase::Keep,
            NonLetterMode::Keep,
        )
    }
}

/// Encrypts `plain_text` with `key` in one call; the key is rejected as
/// [`VigenereError::InvalidKey`] when empty or not all letters.
pub fn encrypt(plain_text: &str, key: &str) -> (r: Result<String, VigenereError>)
    ensures
        r is Ok <==> valid_key(key@),
        r matches Ok(s) ==> s@ == transform(
            VigenereMode::Encrypt,
            schedule_of(key@),
            0,
            plain_text@,
            ForceCase::Keep,
            NonLetterMode::Keep,
        ),
{
    match Vigenere::new(key) {
        Ok(cipher) => Ok(cipher.encrypt(plain_text)),
        Err(e) => Err(e),
    }
}

/// Decrypts `cipher_text` with `key` in one call; the key is rejected as
/// [`VigenereError::InvalidKey`] when empty or not all letters.
pub fn decrypt(cipher_text: &str, key: &str) -> (r: Result<String, VigenereError>)
    ensures
        r is Ok <==> valid_key(key@),
        r matches Ok(s) ==> s@ == transform(
            VigenereMode::Decrypt,
            schedule_of(key@),
            0,
            cipher_text@,
            ForceCase::Keep,
            NonLetterMode::Keep,
        ),
{
    match Vigenere::new(key) {
        Ok(cipher) => Ok(cipher.decrypt(cipher_text)),
        Err(e) => Err(e),
    }
}

/// Inverse law in the terms of the whole-string interface: for any text
/// and any usable key, decrypting an encryption made with the same key
/// gives the text back, under the default `Keep` policies.
pub proof fn lemma_encrypt_then_decrypt(key: Seq<char>, text: Seq<char>)
    requires
        valid_key(key),
    ensures
        transform(
            VigenereMode::Decrypt,
            schedule_of(key),
            0,
            transform(
                VigenereMode::Encrypt,
                schedule_of(key),
                0,
                text,
                ForceCase::Keep,
                NonLetterMode::Keep,
            ),
            ForceCase::Keep,
            NonLetterMode::Keep,
        ) == text,
{
    lemma_schedule_of_valid(key);
    crate::model::lemma_decrypt_encrypt(schedule_of(key), 0, text);
}

} // verus!
