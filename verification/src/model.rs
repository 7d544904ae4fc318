//! Mathematical model of the transform: the mode and policy choices, the
//! shift arithmetic on alphabet positions, and the character-stream
//! transform as a function over sequences of characters.

use vstd::prelude::*;
use crate::alphabet::{
    is_letter, is_upper, lemma_letter_roundtrip, lemma_value_roundtrip, letter_of, letter_value,
};

verus! {

/// Direction of a transform: encipher or decipher.
#[derive(Clone, Copy, Debug, PartialEq, Eq, Structural)]
pub enum VigenereMode {
    /// Encrypt the stream of characters.
    Encrypt,
    /// Decrypt the stream of characters.
    Decrypt,
}

/// Method of dealing with the case of letters.
#[derive(Clone, Copy, Debug, PartialEq, Eq, Structural)]
pub enum ForceCase {
    /// Keep the case of the characters.
    Keep,
    /// Force the character to lower case.
    ToLower,
    /// Force the character to upper case.
    ToUpper,
}

/// Method of dealing with non-letter characters.
#[derive(Clone, Copy, Debug, PartialEq, Eq, Structural)]
pub enum NonLetterMode {
    /// Keep non-letter characters.
    Keep,
    /// Skip (*i.e.*, remove) non-letter characters.
    Skip,
}

/// A usable shift schedule: at least one shift, each in [0, 26).
pub open spec fn valid_schedule(sched: Seq<u8>) -> bool {
    &&& sched.len() > 0
    &&& forall|i: int| 0 <= i < sched.len() ==> sched[i] < 26
}

/// Alphabet position of the output letter: the input position rotated
/// forward by the shift when encrypting, backward when decrypting.
pub open spec fn shifted_value(mode: VigenereMode, v: int, d: int) -> int {
    match mode {
        VigenereMode::Encrypt => (v + d) % 26,
        VigenereMode::Decrypt => (v + 26 - d) % 26,
    }
}

/// Case of an output letter: the input's own case under `Keep`,
/// otherwise the forced one.
pub open spec fn output_upper(input_upper: bool, force_case: ForceCase) -> bool {
    match force_case {
        ForceCase::Keep => input_upper,
        ForceCase::ToLower => false,
        ForceCase::ToUpper => true,
    }
}

/// The output character for one input letter under one shift.
pub open spec fn transformed_letter(mode: VigenereMode, c: char, d: int, force_case: ForceCase) -> char
    recommends
        is_letter(c),
        0 <= d < 26,
{
    letter_of(shifted_value(mode, letter_value(c), d), output_upper(is_upper(c), force_case))
}

/// The transform of a whole character sequence, starting with the schedule
/// cursor at `cur`.  A letter is replaced by its shifted counterpart and
/// advances the cursor, wrapping around at the end of the schedule; a
/// non-letter never advances the cursor and is kept or dropped according
/// to `non_letter_mode`.
pub open spec fn transform(
    mode: VigenereMode,
    sched: Seq<u8>,
    cur: int,
    s: Seq<char>,
    force_case: ForceCase,
    non_letter_mode: NonLetterMode,
) -> Seq<char>
    recommends
        valid_schedule(sched),
        0 <= cur < sched.len(),
    decreases s.len(),
{
    if s.len() == 0 {
        Seq::empty()
    } else if is_letter(s[0]) {
        seq![transformed_letter(mode, s[0], sched[cur] as int, force_case)] + transform(
            mode,
            sched,
            (cur + 1) % (sched.len() as int),
            s.drop_first(),
            force_case,
            non_letter_mode,
        )
    } else if non_letter_mode is Skip {
        transform(mode, sched, cur, s.drop_first(), force_case, non_letter_mode)
    } else {
        seq![s[0]] + transform(mode, sched, cur, s.drop_first(), force_case, non_letter_mode)
    }
}

/// Shift arithmetic on alphabet positions, as executable code.
pub fn shifted_value_exec(mode: VigenereMode, v: u8, d: u8) -> (r: u8)
    requires
        v < 26,
        d < 26,
    ensures
        r as int == shifted_value(mode, v as int, d as int),
        r < 26,
{
    match mode {
        VigenereMode::Encrypt => (v + d) % 26,
        VigenereMode::Decrypt => (v + 26 - d) % 26,
    }
}

/// Rotating an alphabet position forward by a shift and then backward by
/// the same shift gives the position back.
pub proof fn lemma_shift_roundtrip(v: int, d: int)
    requires
        0 <= v < 26,
        0 <= d < 26,
    ensures
        shifted_value(VigenereMode::Decrypt, shifted_value(VigenereMode::Encrypt, v, d), d) == v,
{
    if v + d < 26 {
        assert((v + d) % 26 == v + d);
        assert((v + d + 26 - d) % 26 == v);
    } else {
        assert((v + d) % 26 == v + d - 26);
        assert((v + d - 26 + 26 - d) % 26 == v);
    }
}

/// Identity-key law: when every shift of the schedule is zero, the
/// transform returns its input unchanged, in either direction, for any
/// input mixing letters and non-letters, under the `Keep` policies.
pub proof fn lemma_identity_key(mode: VigenereMode, sched: Seq<u8>, cur: int, s: Seq<char>)
    requires
        valid_schedule(sched),
        0 <= cur < sched.len(),
        forall|i: int| 0 <= i < sched.len() ==> sched[i] == 0,
    ensures
        transform(mode, sched, cur, s, ForceCase::Keep, NonLetterMode::Keep) == s,
    decreases s.len(),
{
    if s.len() == 0 {
        assert(transform(mode, sched, cur, s, ForceCase::Keep, NonLetterMode::Keep) =~= s);
    } else {
        let rest = s.drop_first();
        if is_letter(s[0]) {
            let cur2 = (cur + 1) % (sched.len() as int);
            lemma_identity_key(mode, sched, cur2, rest);
            lemma_letter_roundtrip(s[0]);
            let v = letter_value(s[0]);
            assert(shifted_value(mode, v, 0) == v);
        } else {
            lemma_identity_key(mode, sched, cur, rest);
        }
        assert(transform(mode, sched, cur, s, ForceCase::Keep, NonLetterMode::Keep) =~= s);
    }
}

/// Inverse law: decrypting an encryption made with the same schedule and
/// the same starting cursor gives the input back, for any input, under
/// the `Keep` policies in both directions.
pub proof fn lemma_decrypt_encrypt(sched: Seq<u8>, cur: int, s: Seq<char>)
    requires
        valid_schedule(sched),
        0 <= cur < sched.len(),
    ensures
        transform(
            VigenereMode::Decrypt,
            sched,
            cur,
            transform(VigenereMode::Encrypt, sched, cur, s, ForceCase::Keep, NonLetterMode::Keep),
            ForceCase::Keep,
            NonLetterMode::Keep,
        ) == s,
    decreases s.len(),
{
    let enc = transform(VigenereMode::Encrypt, sched, cur, s, ForceCase::Keep, NonLetterMode::Keep);
    if s.len() == 0 {
        assert(enc =~= Seq::<char>::empty());
        assert(transform(VigenereMode::Decrypt, sched, cur, enc, ForceCase::Keep, NonLetterMode::Keep)
            =~= s);
    } else {
        let c = s[0];
        let rest = s.drop_first();
        if is_letter(c) {
            let d = sched[cur] as int;
            let v = letter_value(c);
            lemma_letter_roundtrip(c);
            let ev = shifted_value(VigenereMode::Encrypt, v, d);
            lemma_value_roundtrip(ev, is_upper(c));
            let e = transformed_letter(VigenereMode::Encrypt, c, d, ForceCase::Keep);
            let cur2 = (cur + 1) % (sched.len() as int);
            let enc_rest = transform(
                VigenereMode::Encrypt,
                sched,
                cur2,
                rest,
                ForceCase::Keep,
                NonLetterMode::Keep,
            );
            assert(enc == seq![e] + enc_rest);
            assert(enc.drop_first() =~= enc_rest);
            lemma_shift_roundtrip(v, d);
            lemma_decrypt_encrypt(sched, cur2, rest);
            assert(transformed_letter(VigenereMode::Decrypt, e, d, ForceCase::Keep) == c);
            assert(transform(
                VigenereMode::Decrypt,
                sched,
                cur,
                enc,
                ForceCase::Keep,
                NonLetterMode::Keep,
            ) =~= s);
        } else {
            let enc_rest = transform(
                VigenereMode::Encrypt,
                sched,
                cur,
                rest,
                ForceCase::Keep,
                NonLetterMode::Keep,
            );
            assert(enc == seq![c] + enc_rest);
            assert(enc.drop_first() =~= enc_rest);
            lemma_decrypt_encrypt(sched, cur, rest);
            assert(transform(
                VigenereMode::Decrypt,
                sched,
                cur,
                enc,
                ForceCase::Keep,
                NonLetterMode::Keep,
            ) =~= s);
        }
    }
}

/// Under the `Keep` non-letter policy the transform emits exactly one
/// character per input character, whatever the case policy.
pub proof fn lemma_keep_preserves_length(
    mode: VigenereMode,
    sched: Seq<u8>,
    cur: int,
    s: Seq<char>,
    force_case: ForceCase,
)
    requires
        valid_schedule(sched),
        0 <= cur < sched.len(),
    ensures
        transform(mode, sched, cur, s, force_case, NonLetterMode::Keep).len() == s.len(),
    decreases s.len(),
{
    if s.len() == 0 {
    } else if is_letter(s[0]) {
        lemma_keep_preserves_length(
            mode,
            sched,
            (cur + 1) % (sched.len() as int),
            s.drop_first(),
            force_case,
        );
    } else {
        lemma_keep_preserves_length(mode, sched, cur, s.drop_first(), force_case);
    }
}

/// The Latin-letter subsequence of a character sequence.
pub open spec fn letters_of(s: Seq<char>) -> Seq<char> {
    s.filter(|c: char| is_letter(c))
}

/// `letters_of` keeps nothing of an empty sequence.
pub proof fn lemma_letters_of_empty()
    ensures
        letters_of(Seq::<char>::empty()) == Seq::<char>::empty(),
{
    reveal_with_fuel(Seq::filter, 2);
}

/// What `letters_of` keeps of a one-character sequence.
pub proof fn lemma_letters_of_singleton(c: char)
    ensures
        is_letter(c) ==> letters_of(seq![c]) == seq![c],
        !is_letter(c) ==> letters_of(seq![c]) == Seq::<char>::empty(),
{
    reveal_with_fuel(Seq::filter, 3);
    assert(seq![c].drop_last() =~= Seq::<char>::empty());
    if is_letter(c) {
        assert(letters_of(seq![c]) =~= seq![c]);
    }
}

/// `letters_of` distributes over concatenation.
pub proof fn lemma_letters_of_add(a: Seq<char>, b: Seq<char>)
    ensures
        letters_of(a + b) == letters_of(a) + letters_of(b),
{
    broadcast use Seq::filter_distributes_over_add;

}

/// Skip-policy law: dropping non-letters from the output of a `Keep`-policy
/// transform gives exactly the output of the `Skip`-policy transform.
pub proof fn lemma_skip_is_filtered(
    mode: VigenereMode,
    sched: Seq<u8>,
    cur: int,
    s: Seq<char>,
    force_case: ForceCase,
)
    requires
        valid_schedule(sched),
        0 <= cur < sched.len(),
    ensures
        transform(mode, sched, cur, s, force_case, NonLetterMode::Skip) == letters_of(
            transform(mode, sched, cur, s, force_case, NonLetterMode::Keep),
        ),
    decreases s.len(),
{
    if s.len() == 0 {
        lemma_letters_of_empty();
    } else {
        let rest = s.drop_first();
        if is_letter(s[0]) {
            let d = sched[cur] as int;
            let e = transformed_letter(mode, s[0], d, force_case);
            let cur2 = (cur + 1) % (sched.len() as int);
            lemma_skip_is_filtered(mode, sched, cur2, rest, force_case);
            lemma_letter_roundtrip(s[0]);
            lemma_value_roundtrip(
                shifted_value(mode, letter_value(s[0]), d),
                output_upper(is_upper(s[0]), force_case),
            );
            lemma_letters_of_add(
                seq![e],
                transform(mode, sched, cur2, rest, force_case, NonLetterMode::Keep),
            );
            lemma_letters_of_singleton(e);
        } else {
            lemma_skip_is_filtered(mode, sched, cur, rest, force_case);
            lemma_letters_of_add(
                seq![s[0]],
                transform(mode, sched, cur, rest, force_case, NonLetterMode::Keep),
            );
            lemma_letters_of_singleton(s[0]);
        }
    }
}

/// Skip-policy length law: the `Skip`-policy transform emits exactly one
/// character per letter of the input, so non-letters shorten the output.
pub proof fn lemma_skip_output_length(
    mode: VigenereMode,
    sched: Seq<u8>,
    cur: int,
    s: Seq<char>,
    force_case: ForceCase,
)
    requires
        valid_schedule(sched),
        0 <= cur < sched.len(),
    ensures
        transform(mode, sched, cur, s, force_case, NonLetterMode::Skip).len() == letters_of(
            s,
        ).len(),
    decreases s.len(),
{
    if s.len() == 0 {
        lemma_letters_of_empty();
    } else {
        let rest = s.drop_first();
        lemma_letters_of_add(seq![s[0]], rest);
        lemma_letters_of_singleton(s[0]);
        assert(seq![s[0]] + rest =~= s);
        if is_letter(s[0]) {
            lemma_skip_output_length(mode, sched, (cur + 1) % (sched.len() as int), rest, force_case);
        } else {
            lemma_skip_output_length(mode, sched, cur, rest, force_case);
        }
    }
}

/// Cursor-independence law: non-letters of the input neither consume a
/// schedule position nor influence the transformed letters, so a
/// `Skip`-policy transform sees only the letter subsequence of its input.
pub proof fn lemma_skip_ignores_nonletters(
    mode: VigenereMode,
    sched: Seq<u8>,
    cur: int,
    s: Seq<char>,
    force_case: ForceCase,
)
    requires
        valid_schedule(sched),
        0 <= cur < sched.len(),
    ensures
        transform(mode, sched, cur, s, force_case, NonLetterMode::Skip) == transform(
            mode,
            sched,
            cur,
            letters_of(s),
            force_case,
            NonLetterMode::Skip,
        ),
    decreases s.len(),
{
    if s.len() == 0 {
        lemma_letters_of_empty();
    } else {
        let rest = s.drop_first();
        lemma_letters_of_add(seq![s[0]], rest);
        lemma_letters_of_singleton(s[0]);
        assert(seq![s[0]] + rest =~= s);
        if is_letter(s[0]) {
            let cur2 = (cur + 1) % (sched.len() as int);
            lemma_skip_ignores_nonletters(mode, sched, cur2, rest, force_case);
            assert((seq![s[0]] + letters_of(rest)).drop_first() =~= letters_of(rest));
        } else {
            lemma_skip_ignores_nonletters(mode, sched, cur, rest, force_case);
        }
    }
}

} // verus!
