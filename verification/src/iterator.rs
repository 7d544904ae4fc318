//! The lazy per-character transform engine.
//!
//! A [`VigenereIterator`] is bound at construction to one direction, one
//! key and one source of characters; each call of [`VigenereIterator::next`]
//! consumes source characters until it can emit one output character, or
//! reports that the source is exhausted.  Only the schedule cursor and the
//! position within the source ever change after construction.

use vstd::prelude::*;
use crate::alphabet::is_letter_exec;
use crate::alphabet::is_upper_exec;
use crate::alphabet::letter_of_exec;
use crate::alphabet::letter_value_exec;
use crate::model::transform;
use crate::model::valid_schedule;
use crate::model::ForceCase;
use crate::model::NonLetterMode;
use crate::model::VigenereMode;
use crate::model::shifted_value_exec;
use crate::schedule::build_schedule;
use crate::schedule::lemma_schedule_of_valid;
use crate::schedule::schedule_of;
use crate::schedule::valid_key;
use crate::schedule::VigenereError;

verus! {

/// Iterator, over characters, that encrypts or decrypts each character
/// using the Vigenère cipher.
pub struct VigenereIterator {
    mode: VigenereMode,
    distances: Vec<u8>,
    force_case: ForceCase,
    none_letter_mode: NonLetterMode,
    index: usize,
    source: Vec<char>,
    pos: usize,
}

impl VigenereIterator {
    /// Direction this iterator transforms in.
    pub closed spec fn spec_mode(self) -> VigenereMode {
        self.mode
    }

    /// The shift schedule derived from the key.
    pub closed spec fn spec_schedule(self) -> Seq<u8> {
        self.distances@
    }

    /// The case policy for output letters.
    pub closed spec fn spec_force_case(self) -> ForceCase {
        self.force_case
    }

    /// The policy for non-letter characters.
    pub closed spec fn spec_none_letter_mode(self) -> NonLetterMode {
        self.none_letter_mode
    }

    /// Current position of the cursor within the shift schedule.
    pub closed spec fn spec_index(self) -> int {
        self.index as int
    }

    /// The source characters not yet consumed.
    pub closed spec fn spec_remaining(self) -> Seq<char> {
        self.source@.skip(self.pos as int)
    }

    /// Well-formedness: the schedule is usable, the cursor points into it,
    /// and the position lies within the source.
    pub closed spec fn wf(self) -> bool {
        &&& valid_schedule(self.distances@)
        &&& self.index < self.distances@.len()
        &&& self.pos <= self.source@.len()
    }

    /// Everything this iterator will still emit: the transform of the
    /// unconsumed source characters from the current cursor position.
    pub open spec fn future_output(self) -> Seq<char> {
        transform(
            self.spec_mode(),
            self.spec_schedule(),
            self.spec_index(),
            self.spec_remaining(),
            self.spec_force_case(),
            self.spec_none_letter_mode(),
        )
    }

    /// Creates an iterator over `source` for the given direction and key,
    /// with both policies at their `Keep` default.  An empty key and a key
    /// with a non-letter character are rejected.
    pub fn new(mode: VigenereMode, key: &str, source: Vec<char>) -> (r: Result<Self, VigenereError>)
        ensures
            r is Ok <==> valid_key(key@),
            r matches Ok(it) ==> {
                &&& it.wf()
                &&& it.spec_mode() == mode
                &&& it.spec_schedule() == schedule_of(key@)
                &&& it.spec_force_case() is Keep
                &&& it.spec_none_letter_mode() is Keep
                &&& it.spec_index() == 0
                &&& it.spec_remaining() == source@
            },
    {
        match build_schedule(key) {
            Ok(distances) => {
                let it = VigenereIterator {
                    mode,
                    distances,
                    force_case: ForceCase::Keep,
                    none_letter_mode: NonLetterMode::Keep,
                    index: 0,
                    source,
                    pos: 0,
                };
                proof {
                    lemma_schedule_of_valid(key@);
                    assert(it.spec_remaining() =~= it.source@);
                }
                Ok(it)
            },
            Err(e) => Err(e),
        }
    }

    /// Replaces the case policy; everything else is kept.
    pub fn with_force_case(self, force_case: ForceCase) -> (r: Self)
        ensures
            r.spec_mode() == self.spec_mode(),
            r.spec_schedule() == self.spec_schedule(),
            r.spec_force_case() == force_case,
            r.spec_none_letter_mode() == self.spec_none_letter_mode(),
            r.spec_index() == self.spec_index(),
            r.spec_remaining() == self.spec_remaining(),
            r.wf() == self.wf(),
    {
        VigenereIterator { force_case, ..self }
    }

    /// Replaces the non-letter policy; everything else is kept.
    pub fn with_none_letter_mode(self, none_letter_mode: NonLetterMode) -> (r: Self)
        ensures
            r.spec_mode() == self.spec_mode(),
            r.spec_schedule() == self.spec_schedule(),
            r.spec_force_case() == self.spec_force_case(),
            r.spec_none_letter_mode() == none_letter_mode,
            r.spec_index() == self.spec_index(),
            r.spec_remaining() == self.spec_remaining(),
            r.wf() == self.wf(),
    {
        VigenereIterator { none_letter_mode, ..self }
    }

    /// Consumes source characters until one output character can be
    /// emitted, and returns it; returns `None` once nothing remains to
    /// emit.  The configuration never changes; the emitted characters are
    /// exactly `future_output`, in order.
    pub fn next(&mut self) -> (r: Option<char>)
        requires
            old(self).wf(),
        ensures
            final(self).wf(),
            final(self).spec_mode() == old(self).spec_mode(),
            final(self).spec_schedule() == old(self).spec_schedule(),
            final(self).spec_force_case() == old(self).spec_force_case(),
            final(self).spec_none_letter_mode() == old(self).spec_none_letter_mode(),
            match r {
                Some(c) => {
                    &&& old(self).future_output().len() > 0
                    &&& c == old(self).future_output()[0]
                    &&& final(self).future_output() == old(self).future_output().drop_first()
                },
                None => {
                    &&& old(self).future_output() == Seq::<char>::empty()
                    &&& final(self).spec_remaining() == Seq::<char>::empty()
                    &&& final(self).future_output() == Seq::<char>::empty()
                },
            },
    {
        loop
            invariant
                self.wf(),
                self.mode == old(self).mode,
                self.distances@ == old(self).distances@,
                self.force_case == old(self).force_case,
                self.none_letter_mode == old(self).none_letter_mode,
                self.future_output() == old(self).future_output(),
            decreases self.source@.len() - self.pos,
        {
            if self.pos < self.source.len() {
                let ch = self.source[self.pos];
                proof {
                    assert(self.spec_remaining()[0] == ch);
                    assert(self.spec_remaining().drop_first() =~= self.source@.skip(
                        self.pos as int + 1,
                    ));
                }
                self.pos = self.pos + 1;
                if is_letter_exec(ch) {
                    let v = letter_value_exec(ch);
                    let d = self.distances[self.index];
                    let sv = shifted_value_exec(self.mode, v, d);
                    let out_upper = match self.force_case {
                        ForceCase::Keep => is_upper_exec(ch),
                        ForceCase::ToLower => false,
                        ForceCase::ToUpper => true,
                    };
                    let oc = letter_of_exec(sv, out_upper);
                    let n = self.distances.len();
                    self.index = (self.index + 1) % n;
                    proof {
                        assert(old(self).future_output() == seq![oc] + self.future_output());
                        assert((seq![oc] + self.future_output()).drop_first() =~= self
                            .future_output());
                    }
                    return Some(oc);
                } else {
                    match self.none_letter_mode {
                        NonLetterMode::Keep => {
                            proof {
                                assert(old(self).future_output() == seq![ch]
                                    + self.future_output());
                                assert((seq![ch] + self.future_output()).drop_first() =~= self
                                    .future_output());
                            }
                            return Some(ch);
                        },
                        NonLetterMode::Skip => {
                        },
                    }
                }
            } else {
                proof {
                    assert(self.spec_remaining() =~= Seq::<char>::empty());
                }
                return None;
            }
        }
    }
}

} // verus!
