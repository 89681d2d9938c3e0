//! The per-subscription group scheduler: serve at most two groups at a
//! time, cancelling the older one when a newer group arrives.

use vstd::prelude::*;

verus! {

/// The serving slots of one subscription: the sequence being served in
/// the older slot and in the newer slot, when occupied.
#[derive(Clone, Copy, Debug, PartialEq, Eq, Structural)]
pub struct GroupScheduler {
    pub old_sequence: Option<u64>,
    pub new_sequence: Option<u64>,
}

/// What to do with a freshly arrived group.
#[derive(Clone, Copy, Debug, PartialEq, Eq, Structural)]
pub enum ScheduleAction {
    /// The group is older than the older slot: do not serve it.
    Skip,
    /// Serve the group.  `cancel_old` says to cancel the task in the
    /// older slot first; `promote` says the group takes the newer slot,
    /// moving its occupant into the older one, otherwise the group
    /// itself takes the older slot.
    Serve { cancel_old: bool, promote: bool },
}

impl GroupScheduler {
    /// When both slots are occupied, the older serves an older or equal
    /// sequence.
    pub open spec fn wf(self) -> bool {
        match (self.old_sequence, self.new_sequence) {
            (Some(o), Some(n)) => o <= n,
            _ => true,
        }
    }

    /// How many serving tasks are alive.
    pub open spec fn spec_active(self) -> int {
        (if self.old_sequence is Some {
            1int
        } else {
            0int
        }) + (if self.new_sequence is Some {
            1int
        } else {
            0int
        })
    }

    /// An idle scheduler.
    pub fn new() -> (r: GroupScheduler)
        ensures
            r.old_sequence is None,
            r.new_sequence is None,
            r.wf(),
    {
        GroupScheduler { old_sequence: None, new_sequence: None }
    }

    /// A group with sequence `sequence` arrived.  A group older than the
    /// older slot is skipped.  Otherwise the older task is cancelled; if
    /// the group is at least as new as the newer slot it becomes the new
    /// newest (its occupant moving to the older slot), else it fills the
    /// older slot.
    pub fn on_group(&mut self, sequence: u64) -> (r: ScheduleAction)
        requires
            old(self).wf(),
        ensures
            final(self).wf(),
            final(self).spec_active() <= 2,
            ({
                let old_floor = match old(self).old_sequence {
                    Some(o) => o,
                    None => 0,
                };
                let new_floor = match old(self).new_sequence {
                    Some(n) => n,
                    None => 0,
                };
                if sequence < old_floor {
                    r == ScheduleAction::Skip && *final(self) == *old(self)
                } else if sequence >= new_floor {
                    r == (ScheduleAction::Serve {
                        cancel_old: old(self).old_sequence is Some,
                        promote: true,
                    }) && final(self).old_sequence == old(self).new_sequence
                        && final(self).new_sequence == Some(sequence)
                } else {
                    r == (ScheduleAction::Serve {
                        cancel_old: old(self).old_sequence is Some,
                        promote: false,
                    }) && final(self).old_sequence == Some(sequence)
                        && final(self).new_sequence == old(self).new_sequence
                }
            }),
    {
        let old_floor = match self.old_sequence {
            Some(o) => o,
            None => 0,
        };
        if sequence < old_floor {
            return ScheduleAction::Skip;
        }
        let cancel_old = matches!(self.old_sequence, Some(_));
        let new_floor = match self.new_sequence {
            Some(n) => n,
            None => 0,
        };
        if sequence >= new_floor {
            self.old_sequence = self.new_sequence;
            self.new_sequence = Some(sequence);
            ScheduleAction::Serve { cancel_old, promote: true }
        } else {
            self.old_sequence = Some(sequence);
            ScheduleAction::Serve { cancel_old, promote: false }
        }
    }

    /// The task in the older slot finished.
    pub fn on_old_done(&mut self)
        requires
            old(self).wf(),
        ensures
            final(self).wf(),
            final(self).old_sequence is None,
            final(self).new_sequence == old(self).new_sequence,
    {
        self.old_sequence = None;
    }

    /// The task in the newer slot finished; the older occupant, if any,
    /// moves up.
    pub fn on_new_done(&mut self)
        requires
            old(self).wf(),
        ensures
            final(self).wf(),
            final(self).new_sequence == old(self).old_sequence,
            final(self).old_sequence is None,
    {
        self.new_sequence = self.old_sequence;
        self.old_sequence = None;
    }
}

/// At any time, at most two serving tasks are alive per subscription,
/// and no group older than the older slot's sequence is being served.
pub proof fn lemma_at_most_two(s: GroupScheduler)
    requires
        s.wf(),
    ensures
        s.spec_active() <= 2,
        match (s.old_sequence, s.new_sequence) {
            (Some(o), Some(n)) => o <= n,
            _ => true,
        },
{
}

} // verus!
