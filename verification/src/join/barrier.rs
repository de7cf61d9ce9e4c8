//! A reusable barrier for a fixed number of participants, as a state machine:
//! the caller suspends a participant that is told to wait and wakes the
//! waiting ones when the last arrives or the barrier is aborted.

use vstd::prelude::*;

verus! {

/// What an arriving participant is told.
#[derive(Clone, Copy, Debug, PartialEq, Eq, Structural)]
pub enum Arrival {
    /// Others are still to come: suspend until the barrier releases.
    Wait,
    /// This participant completes the round. Everyone proceeds, and this one
    /// is the round's leader.
    Leader,
    /// The barrier was aborted: nobody proceeds, everyone fails.
    Aborted,
}

/// A barrier for a fixed number of participants.
pub struct Barrier {
    participants: usize,
    arrived: usize,
    aborted: bool,
}

/// The state of a barrier: for how many participants it is, how many of them
/// wait at it, and whether it was aborted.
pub struct BarrierView {
    pub participants: usize,
    pub arrived: usize,
    pub aborted: bool,
}

impl View for Barrier {
    type V = BarrierView;

    closed spec fn view(&self) -> BarrierView {
        BarrierView {
            participants: self.participants,
            arrived: self.arrived,
            aborted: self.aborted,
        }
    }
}

impl BarrierView {
    pub open spec fn well_formed(self) -> bool {
        self.participants > 0 && self.arrived < self.participants
    }

    /// A barrier for `participants` participants, none of which has arrived.
    pub open spec fn fresh(participants: usize) -> BarrierView {
        BarrierView { participants, arrived: 0, aborted: false }
    }

    /// The barrier after one more arrival.
    pub open spec fn after_arrival(self) -> BarrierView {
        if self.aborted {
            self
        } else if self.arrived + 1 == self.participants {
            BarrierView { arrived: 0, ..self }
        } else {
            BarrierView { arrived: (self.arrived + 1) as usize, ..self }
        }
    }

    /// What the next participant to arrive is told.
    pub open spec fn next_arrival(self) -> Arrival {
        if self.aborted {
            Arrival::Aborted
        } else if self.arrived + 1 == self.participants {
            Arrival::Leader
        } else {
            Arrival::Wait
        }
    }

    /// The barrier after `count` more arrivals.
    pub open spec fn after_arrivals(self, count: nat) -> BarrierView
        decreases count,
    {
        if count == 0 {
            self
        } else {
            self.after_arrivals((count - 1) as nat).after_arrival()
        }
    }

    /// The barrier once it is aborted.
    pub open spec fn after_abort(self) -> BarrierView {
        BarrierView { aborted: true, ..self }
    }
}

impl Barrier {
    pub open spec fn well_formed(&self) -> bool {
        self@.well_formed()
    }

    /// A barrier for `participants` participants, none of which has arrived.
    pub fn new(participants: usize) -> (barrier: Barrier)
        requires
            participants > 0,
        ensures
            barrier@ == BarrierView::fresh(participants),
            barrier.well_formed(),
    {
        Barrier { participants, arrived: 0, aborted: false }
    }

    /// Records one arrival. The number of participants never changes.
    pub fn arrive(&mut self) -> (arrival: Arrival)
        requires
            old(self).well_formed(),
        ensures
            final(self).well_formed(),
            arrival == old(self)@.next_arrival(),
            final(self)@ == old(self)@.after_arrival(),
    {
        if self.aborted {
            Arrival::Aborted
        } else if self.arrived + 1 == self.participants {
            self.arrived = 0;
            Arrival::Leader
        } else {
            self.arrived = self.arrived + 1;
            Arrival::Wait
        }
    }

    /// Aborts the barrier: those waiting, and all that arrive later, fail.
    pub fn abort(&mut self)
        ensures
            final(self)@ == old(self)@.after_abort(),
    {
        self.aborted = true;
    }

    /// The number of participants suspended at the barrier.
    pub fn waiting(&self) -> (count: usize)
        ensures
            count == self@.arrived,
    {
        self.arrived
    }

    /// The number of participants the barrier is for.
    pub fn participants(&self) -> (count: usize)
        ensures
            count == self@.participants,
    {
        self.participants
    }
}

/// Of the participants of a round, all but the last are told to wait, the
/// last is the leader, and the barrier is then ready for the next round.
pub proof fn law_round(barrier: BarrierView, count: nat)
    requires
        barrier.well_formed(),
        barrier.arrived == 0,
        !barrier.aborted,
        count < barrier.participants,
    ensures
        barrier.after_arrivals(count).arrived == count,
        barrier.after_arrivals(count).participants == barrier.participants,
        !barrier.after_arrivals(count).aborted,
        barrier.after_arrivals(count).next_arrival() == (if count + 1 == barrier.participants {
            Arrival::Leader
        } else {
            Arrival::Wait
        }),
        count + 1 == barrier.participants ==> barrier.after_arrivals(count + 1) == barrier,
    decreases count,
{
    if count > 0 {
        law_round(barrier, (count - 1) as nat);
    }
    if count + 1 == barrier.participants {
        assert(barrier.after_arrivals(count + 1) == barrier.after_arrivals(count).after_arrival());
    }
}

/// Once aborted, a barrier tells every arrival so and releases nobody.
pub proof fn law_aborted_stays(barrier: BarrierView, count: nat)
    requires
        barrier.aborted,
    ensures
        barrier.after_arrivals(count) == barrier,
        barrier.after_arrivals(count).next_arrival() == Arrival::Aborted,
    decreases count,
{
    if count > 0 {
        law_aborted_stays(barrier, (count - 1) as nat);
    }
}

} // verus!
