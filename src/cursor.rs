//! Cursors over the elements of a sequence or the pairs of a map, bound to
//! the count its header declared.
use vstd::prelude::*;
use crate::error::Error;

verus! {

/// One step of a cursor that has handed out `taken` of `declared` elements:
/// the new count, or `None` when none is left.
pub open spec fn cursor_step(declared: nat, taken: nat) -> Option<nat> {
    if taken < declared {
        Some(taken + 1)
    } else {
        None
    }
}

/// Driving a cursor `k` more times from `taken`.
pub open spec fn drive(declared: nat, taken: nat, k: nat) -> Result<nat, Error>
    decreases k,
{
    if k == 0 {
        Ok(taken)
    } else {
        match cursor_step(declared, taken) {
            None => Err(Error::ArityViolation),
            Some(t) => drive(declared, t, (k - 1) as nat),
        }
    }
}

/// Driving a fresh cursor `k` times and then closing it.
pub open spec fn drive_then_finish(declared: nat, k: nat) -> Result<(), Error> {
    match drive(declared, 0, k) {
        Err(e) => Err(e),
        Ok(t) => if t == declared {
            Ok(())
        } else {
            Err(Error::ArityViolation)
        },
    }
}

proof fn lemma_drive(declared: nat, taken: nat, k: nat)
    requires
        taken <= declared,
    ensures
        drive(declared, taken, k) == (if taken + k <= declared {
            Ok::<nat, Error>(taken + k)
        } else {
            Err::<nat, Error>(Error::ArityViolation)
        }),
    decreases k,
{
    if k > 0 && taken < declared {
        lemma_drive(declared, taken + 1, (k - 1) as nat);
    }
}

/// A cursor closes cleanly exactly when it was driven as many times as its
/// header declared; fewer or more is an arity violation.
pub proof fn lemma_arity_enforced(declared: nat, k: nat)
    ensures
        drive_then_finish(declared, k) == (if k == declared {
            Ok::<(), Error>(())
        } else {
            Err::<(), Error>(Error::ArityViolation)
        }),
{
    lemma_drive(declared, 0, k);
}

/// A cursor over the elements of a sequence.
pub struct SeqCursor {
    declared: u32,
    taken: u32,
}

impl SeqCursor {
    pub closed spec fn declared(&self) -> nat {
        self.declared as nat
    }

    pub closed spec fn taken(&self) -> nat {
        self.taken as nat
    }

    pub open spec fn wf(&self) -> bool {
        self.taken() <= self.declared()
    }

    pub fn new(declared: u32) -> (c: SeqCursor)
        ensures
            c.wf(),
            c.declared() == declared,
            c.taken() == 0,
    {
        SeqCursor { declared, taken: 0 }
    }

    /// The count the header declared.
    pub fn len(&self) -> (r: u32)
        ensures
            r == self.declared(),
    {
        self.declared
    }

    /// How many elements are still owed.
    pub fn remaining(&self) -> (r: u32)
        requires
            self.wf(),
        ensures
            r == self.declared() - self.taken(),
    {
        self.declared - self.taken
    }

    pub fn has_next(&self) -> (r: bool)
        ensures
            r == (self.taken() < self.declared()),
    {
        self.taken < self.declared
    }

    /// Claims the next element, which the caller then decodes.
    pub fn next(&mut self) -> (r: Result<(), Error>)
        requires
            old(self).wf(),
        ensures
            final(self).wf(),
            final(self).declared() == old(self).declared(),
            match cursor_step(old(self).declared(), old(self).taken()) {
                Some(t) => r is Ok && final(self).taken() == t,
                None => r == Err::<(), Error>(Error::ArityViolation) && final(self).taken() == old(self).taken(),
            },
    {
        if self.taken < self.declared {
            self.taken = self.taken + 1;
            Ok(())
        } else {
            Err(Error::ArityViolation)
        }
    }

    /// Closes the cursor: every declared element must have been claimed.
    pub fn finish(&self) -> (r: Result<(), Error>)
        ensures
            self.taken() == self.declared() ==> r is Ok,
            self.taken() != self.declared() ==> r == Err::<(), Error>(Error::ArityViolation),
    {
        if self.taken == self.declared {
            Ok(())
        } else {
            Err(Error::ArityViolation)
        }
    }
}

/// A cursor over the pairs of a map: each pair is a key, then a value.
pub struct MapCursor {
    declared: u32,
    taken: u32,
    value_pending: bool,
}

impl MapCursor {
    pub closed spec fn declared(&self) -> nat {
        self.declared as nat
    }

    /// The pairs whose value has been claimed.
    pub closed spec fn taken(&self) -> nat {
        self.taken as nat
    }

    /// A key was claimed and its value not yet.
    pub closed spec fn value_pending(&self) -> bool {
        self.value_pending
    }

    pub open spec fn wf(&self) -> bool {
        &&& self.taken() <= self.declared()
        &&& self.value_pending() ==> self.taken() < self.declared()
    }

    pub fn new(declared: u32) -> (c: MapCursor)
        ensures
            c.wf(),
            c.declared() == declared,
            c.taken() == 0,
            !c.value_pending(),
    {
        MapCursor { declared, taken: 0, value_pending: false }
    }

    pub fn len(&self) -> (r: u32)
        ensures
            r == self.declared(),
    {
        self.declared
    }

    pub fn has_next(&self) -> (r: bool)
        ensures
            r == (self.taken() < self.declared() && !self.value_pending()),
    {
        self.taken < self.declared && !self.value_pending
    }

    /// Claims the key of the next pair.
    pub fn next_key(&mut self) -> (r: Result<(), Error>)
        requires
            old(self).wf(),
        ensures
            final(self).wf(),
            final(self).declared() == old(self).declared(),
            final(self).taken() == old(self).taken(),
            !old(self).value_pending() && old(self).taken() < old(self).declared() ==> r is Ok
                && final(self).value_pending(),
            !(!old(self).value_pending() && old(self).taken() < old(self).declared()) ==> r == Err::<
                (),
                Error,
            >(Error::ArityViolation) && final(self).value_pending() == old(self).value_pending(),
    {
        if !self.value_pending && self.taken < self.declared {
            self.value_pending = true;
            Ok(())
        } else {
            Err(Error::ArityViolation)
        }
    }

    /// Claims the value of the pair whose key was claimed last.
    pub fn next_value(&mut self) -> (r: Result<(), Error>)
        requires
            old(self).wf(),
        ensures
            final(self).wf(),
            final(self).declared() == old(self).declared(),
            old(self).value_pending() ==> r is Ok && !final(self).value_pending() && final(self).taken() == old(self).taken() + 1,
            !old(self).value_pending() ==> r == Err::<(), Error>(Error::ArityViolation) && final(self).taken() == old(self).taken() && !final(self).value_pending(),
    {
        if self.value_pending {
            self.value_pending = false;
            self.taken = self.taken + 1;
            Ok(())
        } else {
            Err(Error::ArityViolation)
        }
    }

    /// Closes the cursor: every declared pair must have been claimed whole.
    pub fn finish(&self) -> (r: Result<(), Error>)
        ensures
            self.taken() == self.declared() && !self.value_pending() ==> r is Ok,
            !(self.taken() == self.declared() && !self.value_pending()) ==> r == Err::<(), Error>(
                Error::ArityViolation,
            ),
    {
        if self.taken == self.declared && !self.value_pending {
            Ok(())
        } else {
            Err(Error::ArityViolation)
        }
    }
}

} // verus!
