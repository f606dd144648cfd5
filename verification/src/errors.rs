use vstd::prelude::*;

use crate::ids::fresh_uuid;

verus! {

/// One user-visible error report: a unique id, the headline text, and the
/// display texts of the underlying causes, outermost first.
#[derive(Debug, PartialEq)]
pub struct ErrorMessage {
    pub id: u128,
    pub message: String,
    pub trace: Vec<String>,
}

impl Clone for ErrorMessage {
    fn clone(&self) -> (r: Self)
        ensures
            r.id == self.id,
            r.message == self.message,
            r.trace@ == self.trace@,
    {
        let trace = self.trace.clone();
        proof {
            assert(trace@ =~= self.trace@);
        }
        ErrorMessage { id: self.id, message: self.message.clone(), trace }
    }
}

/// The process-wide ordered list of user-visible error reports, oldest
/// first.
#[derive(Debug)]
pub struct Errors {
    entries: Vec<ErrorMessage>,
}

impl View for Errors {
    type V = Seq<ErrorMessage>;

    closed spec fn view(&self) -> Seq<ErrorMessage> {
        self.entries@
    }
}

impl Default for Errors {
    fn default() -> (r: Self)
        ensures
            r@ == Seq::<ErrorMessage>::empty(),
    {
        Errors { entries: Vec::new() }
    }
}

impl Errors {
    /// An empty report list.
    pub fn new() -> (r: Self)
        ensures
            r@ == Seq::<ErrorMessage>::empty(),
    {
        Errors { entries: Vec::new() }
    }

    /// Appends a report under a fresh random id, keeping every existing
    /// entry in place.
    pub fn push(&mut self, message: String, trace: Vec<String>)
        ensures
            final(self)@.len() == old(self)@.len() + 1,
            forall|i: int| 0 <= i < old(self)@.len() ==> final(self)@[i] == old(self)@[i],
            final(self)@.last().message == message,
            final(self)@.last().trace == trace,
    {
        let id = fresh_uuid();
        self.entries.push(ErrorMessage { id, message, trace });
    }

    /// How many reports are listed.
    pub fn len(&self) -> (r: usize)
        ensures
            r == self@.len(),
    {
        self.entries.len()
    }

    /// Reads the report at a position, oldest first.
    pub fn get(&self, i: usize) -> (r: &ErrorMessage)
        requires
            i < self@.len(),
        ensures
            *r == self@[i as int],
    {
        &self.entries[i]
    }

    /// Dismisses every report carrying the given id.
    pub fn dismiss(&mut self, id: u128)
        ensures
            final(self)@ == old(self)@.filter(|e: ErrorMessage| e.id != id),
    {
        let ghost before = self.entries@;
        let ghost pred = |e: ErrorMessage| e.id != id;
        let n0 = self.entries.len();
        proof {
            assert(before.len() == n0);
        }
        let mut kept: Vec<ErrorMessage> = Vec::new();
        let mut i: usize = 0;
        while self.entries.len() > 0
            invariant
                i <= before.len(),
                before.len() <= usize::MAX,
                self.entries@ == before.skip(i as int),
                kept@ == before.take(i as int).filter(pred),
            decreases self.entries@.len(),
        {
            let e = self.entries.remove(0);
            proof {
                assert(i < before.len());
                assert(e == before[i as int]);
                assert(self.entries@ =~= before.skip(i + 1));
                assert(before.take(i + 1).drop_last() =~= before.take(i as int));
                assert(before.take(i + 1).last() == before[i as int]);
                reveal_with_fuel(Seq::filter, 2);
            }
            if e.id != id {
                kept.push(e);
                proof {
                    assert(kept@ =~= before.take(i + 1).filter(pred));
                }
            }
            i = i + 1;
        }
        proof {
            assert(before.take(i as int) =~= before);
        }
        self.entries = kept;
    }

    /// Dismisses every report.
    pub fn clear(&mut self)
        ensures
            final(self)@ == Seq::<ErrorMessage>::empty(),
    {
        self.entries.clear();
    }
}

} // verus!
