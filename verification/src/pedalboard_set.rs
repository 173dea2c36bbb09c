//! The pedalboards a user switches between, and which of them is playing.

use vstd::prelude::*;

verus! {

/// A list of pedalboards with one of them active.
///
/// The pedalboards themselves are carried through untouched: the set only decides which of them
/// there are and which one plays.
pub struct PedalboardSet<B> {
    pub pedalboards: Vec<B>,
    pub active_pedalboard: usize,
}

/// Refusal to build a set out of no pedalboards at all.
#[derive(Debug)]
pub struct EmptyPedalboardSetError;

impl EmptyPedalboardSetError {
    /// The message the error is shown with.
    pub fn message(&self) -> (text: &'static str)
        ensures
            text@ == "Pedalboard set is empty"@,
    {
        "Pedalboard set is empty"
    }
}

impl<B> PedalboardSet<B> {
    /// A set holds at least one pedalboard, and the active one is one of them.
    pub open spec fn well_formed(&self) -> bool {
        &&& self.pedalboards@.len() >= 1
        &&& self.active_pedalboard < self.pedalboards@.len()
    }

    /// A set holding the one pedalboard given, which is active.
    pub fn with_pedalboard(pedalboard: B) -> (set: Self)
        ensures
            set.pedalboards@ == seq![pedalboard],
            set.active_pedalboard == 0,
            set.well_formed(),
    {
        let mut pedalboards = Vec::new();
        pedalboards.push(pedalboard);
        PedalboardSet { pedalboards, active_pedalboard: 0 }
    }

    /// A set of the given pedalboards with the first one active, or an error when there are
    /// none.
    pub fn from_pedalboards(pedalboards: Vec<B>) -> (res: Result<Self, EmptyPedalboardSetError>)
        ensures
            res is Err <==> pedalboards@.len() == 0,
            res matches Ok(set) ==> {
                &&& set.pedalboards@ == pedalboards@
                &&& set.active_pedalboard == 0
                &&& set.well_formed()
            },
    {
        if pedalboards.len() == 0 {
            return Err(EmptyPedalboardSetError);
        }
        Ok(PedalboardSet { pedalboards, active_pedalboard: 0 })
    }

    /// Removes the pedalboard at `index`, unless it is out of range or the last one left.
    /// When the active pedalboard was at the end of the list it moves to the new end.
    /// Returns whether a pedalboard was removed.
    pub fn remove_pedalboard(&mut self, index: usize) -> (removed: bool)
        ensures
            removed == (index < old(self).pedalboards@.len() && old(self).pedalboards@.len() > 1),
            removed ==> {
                &&& final(self).pedalboards@ == old(self).pedalboards@.remove(index as int)
                &&& final(self).active_pedalboard == if old(self).active_pedalboard
                    >= final(self).pedalboards@.len() {
                    (final(self).pedalboards@.len() - 1) as usize
                } else {
                    old(self).active_pedalboard
                }
            },
            !removed ==> *final(self) == *old(self),
            old(self).well_formed() ==> final(self).well_formed(),
    {
        if index < self.pedalboards.len() && self.pedalboards.len() > 1 {
            self.pedalboards.remove(index);
            if self.active_pedalboard >= self.pedalboards.len() {
                self.active_pedalboard = self.pedalboards.len() - 1;
            }
            true
        } else {
            false
        }
    }

    /// Makes the pedalboard at `index` active, when there is one there.
    pub fn set_active_pedalboard(&mut self, index: usize)
        ensures
            final(self).pedalboards@ == old(self).pedalboards@,
            final(self).active_pedalboard == if index < old(self).pedalboards@.len() {
                index
            } else {
                old(self).active_pedalboard
            },
            old(self).well_formed() ==> final(self).well_formed(),
    {
        if index < self.pedalboards.len() {
            self.active_pedalboard = index;
        }
    }

    /// The pedalboard that the next buffer of audio goes through.
    ///
    /// An empty set processes nothing. An active index that points past the end processes
    /// nothing this time and is reset to the first pedalboard.
    pub fn pedalboard_to_process(&mut self) -> (to_process: Option<usize>)
        ensures
            final(self).pedalboards@ == old(self).pedalboards@,
            to_process == if old(self).active_pedalboard < old(self).pedalboards@.len() {
                Some(old(self).active_pedalboard)
            } else {
                None::<usize>
            },
            final(self).active_pedalboard == if old(self).pedalboards@.len() == 0
                || old(self).active_pedalboard < old(self).pedalboards@.len() {
                old(self).active_pedalboard
            } else {
                0
            },
    {
        if self.pedalboards.len() == 0 {
            return None;
        }
        if self.active_pedalboard < self.pedalboards.len() {
            Some(self.active_pedalboard)
        } else {
            self.active_pedalboard = 0;
            None
        }
    }
}

} // verus!
