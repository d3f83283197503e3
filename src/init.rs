use vstd::prelude::*;

verus! {

/// Where a lazy initialization of an optional cell stands.
#[derive(Clone, Copy, Debug, PartialEq, Eq, Structural)]
pub enum InitPhase {
    /// Waiting for shared access.
    AcquireShared,
    /// Waiting for exclusive access.
    AcquireExclusive,
    /// Holding exclusive access while the initializer runs.
    RunInitializer,
    /// Finished: the caller holds a guard on a present value.
    Done,
    /// Finished: the initializer failed and its error goes to the caller.
    Failed,
}

/// What the driver of a lazy initialization observed since the last step.
#[derive(Clone, Copy, Debug, PartialEq, Eq, Structural)]
pub enum InitEvent {
    /// Shared access was granted; `present` tells whether the cell holds a value.
    SharedAcquired { present: bool },
    /// Exclusive access was granted; `present` tells whether the cell holds a value.
    ExclusiveAcquired { present: bool },
    /// The initializer completed, successfully or not.
    InitializerFinished { succeeded: bool },
}

/// What the driver of a lazy initialization must do next.
#[derive(Clone, Copy, Debug, PartialEq, Eq, Structural)]
pub enum InitAction {
    /// Begin a shared acquisition.
    RequestShared,
    /// Begin an exclusive acquisition, releasing any shared guard held.
    RequestExclusive,
    /// Release the exclusive guard, whose cell someone else filled, and begin
    /// a shared acquisition.
    RetryShared,
    /// Keep the exclusive guard, call the initializer and wait for it.
    StartInitializer,
    /// Store the produced value, release the exclusive guard and begin a
    /// shared acquisition.
    StoreThenShared,
    /// Hand the shared guard to the caller.
    HandOutShared,
    /// Hand the exclusive guard to the caller.
    HandOutExclusive,
    /// Store the produced value and hand the exclusive guard to the caller.
    StoreThenHandOutExclusive,
    /// Release the exclusive guard without storing and pass the initializer's
    /// error to the caller.
    Fail,
}

impl InitPhase {
    /// Whether `event` is one that can be observed in this phase.
    pub open spec fn accepts_spec(self, event: InitEvent) -> bool {
        match (self, event) {
            (InitPhase::AcquireShared, InitEvent::SharedAcquired { .. }) => true,
            (InitPhase::AcquireExclusive, InitEvent::ExclusiveAcquired { .. }) => true,
            (InitPhase::RunInitializer, InitEvent::InitializerFinished { .. }) => true,
            _ => false,
        }
    }

    pub fn accepts(&self, event: InitEvent) -> (r: bool)
        ensures
            r == self.accepts_spec(event),
    {
        match (self, event) {
            (InitPhase::AcquireShared, InitEvent::SharedAcquired { .. }) => true,
            (InitPhase::AcquireExclusive, InitEvent::ExclusiveAcquired { .. }) => true,
            (InitPhase::RunInitializer, InitEvent::InitializerFinished { .. }) => true,
            _ => false,
        }
    }

    /// Whether nothing more happens from this phase on.
    pub open spec fn is_terminal(self) -> bool {
        self == InitPhase::Done || self == InitPhase::Failed
    }
}

/// The transitions of a shared-or-initialize access. An absent cell sends it
/// to exclusive access; a cell found filled there sends it back to shared
/// access; the initializer runs only under exclusive access to an absent cell,
/// and a success sends it back to shared access.
pub open spec fn read_transition(phase: InitPhase, event: InitEvent) -> (InitPhase, InitAction)
    recommends
        phase.accepts_spec(event),
{
    match event {
        InitEvent::SharedAcquired { present } => if present {
            (InitPhase::Done, InitAction::HandOutShared)
        } else {
            (InitPhase::AcquireExclusive, InitAction::RequestExclusive)
        },
        InitEvent::ExclusiveAcquired { present } => if present {
            (InitPhase::AcquireShared, InitAction::RetryShared)
        } else {
            (InitPhase::RunInitializer, InitAction::StartInitializer)
        },
        InitEvent::InitializerFinished { succeeded } => if succeeded {
            (InitPhase::AcquireShared, InitAction::StoreThenShared)
        } else {
            (InitPhase::Failed, InitAction::Fail)
        },
    }
}

/// The transitions of an exclusive-or-initialize access: the exclusive guard
/// goes to the caller at once on a present cell, or after the initializer has
/// filled an absent one.
pub open spec fn write_transition(phase: InitPhase, event: InitEvent) -> (InitPhase, InitAction)
    recommends
        phase.accepts_spec(event),
{
    match event {
        InitEvent::ExclusiveAcquired { present } => if present {
            (InitPhase::Done, InitAction::HandOutExclusive)
        } else {
            (InitPhase::RunInitializer, InitAction::StartInitializer)
        },
        InitEvent::InitializerFinished { succeeded } => if succeeded {
            (InitPhase::Done, InitAction::StoreThenHandOutExclusive)
        } else {
            (InitPhase::Failed, InitAction::Fail)
        },
        // never observed: an exclusive-or-initialize access waits for no shared access
        InitEvent::SharedAcquired { .. } => (phase, InitAction::RequestShared),
    }
}

/// The decisions of a shared-or-initialize access to an optional cell.
#[derive(Debug)]
pub struct ReadOrInit {
    phase: InitPhase,
}

impl ReadOrInit {
    pub closed spec fn phase_spec(self) -> InitPhase {
        self.phase
    }

    /// Begins with a shared acquisition.
    pub fn start() -> (r: (ReadOrInit, InitAction))
        ensures
            r.0.phase_spec() == InitPhase::AcquireShared,
            r.1 == InitAction::RequestShared,
    {
        (ReadOrInit { phase: InitPhase::AcquireShared }, InitAction::RequestShared)
    }

    pub fn phase(&self) -> (r: InitPhase)
        ensures
            r == self.phase_spec(),
    {
        self.phase
    }

    /// Takes in what was observed and says what to do next.
    pub fn step(&mut self, event: InitEvent) -> (r: InitAction)
        requires
            old(self).phase_spec().accepts_spec(event),
        ensures
            (final(self).phase_spec(), r) == read_transition(old(self).phase_spec(), event),
    {
        let (phase, action) = match event {
            InitEvent::SharedAcquired { present } => if present {
                (InitPhase::Done, InitAction::HandOutShared)
            } else {
                (InitPhase::AcquireExclusive, InitAction::RequestExclusive)
            },
            InitEvent::ExclusiveAcquired { present } => if present {
                (InitPhase::AcquireShared, InitAction::RetryShared)
            } else {
                (InitPhase::RunInitializer, InitAction::StartInitializer)
            },
            InitEvent::InitializerFinished { succeeded } => if succeeded {
                (InitPhase::AcquireShared, InitAction::StoreThenShared)
            } else {
                (InitPhase::Failed, InitAction::Fail)
            },
        };
        self.phase = phase;
        action
    }
}

/// The decisions of an exclusive-or-initialize access to an optional cell.
#[derive(Debug)]
pub struct WriteOrInit {
    phase: InitPhase,
}

impl WriteOrInit {
    pub closed spec fn phase_spec(self) -> InitPhase {
        self.phase
    }

    /// Begins with an exclusive acquisition.
    pub fn start() -> (r: (WriteOrInit, InitAction))
        ensures
            r.0.phase_spec() == InitPhase::AcquireExclusive,
            r.1 == InitAction::RequestExclusive,
    {
        (WriteOrInit { phase: InitPhase::AcquireExclusive }, InitAction::RequestExclusive)
    }

    pub fn phase(&self) -> (r: InitPhase)
        ensures
            r == self.phase_spec(),
    {
        self.phase
    }

    /// Takes in what was observed and says what to do next.
    pub fn step(&mut self, event: InitEvent) -> (r: InitAction)
        requires
            old(self).phase_spec().accepts_spec(event),
            !(event is SharedAcquired),
        ensures
            (final(self).phase_spec(), r) == write_transition(old(self).phase_spec(), event),
    {
        let (phase, action) = match event {
            InitEvent::ExclusiveAcquired { present } => if present {
                (InitPhase::Done, InitAction::HandOutExclusive)
            } else {
                (InitPhase::RunInitializer, InitAction::StartInitializer)
            },
            InitEvent::InitializerFinished { succeeded } => if succeeded {
                (InitPhase::Done, InitAction::StoreThenHandOutExclusive)
            } else {
                (InitPhase::Failed, InitAction::Fail)
            },
            InitEvent::SharedAcquired { .. } => (self.phase, InitAction::RequestShared),
        };
        self.phase = phase;
        action
    }
}

} // verus!
