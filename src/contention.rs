use crate::init::{read_transition, write_transition, InitAction, InitEvent, InitPhase};
use vstd::prelude::*;

verus! {

/// One caller of `read_or_init` (shared) or `write_or_init` (exclusive) on
/// a shared optional cell.
pub struct Contender {
    pub exclusive_mode: bool,
    pub phase: InitPhase,
    /// Whether the caller has dropped the guard it was handed.
    pub released: bool,
}

/// Callers contending for one optional cell, with what happened to the cell.
pub struct Contention {
    pub present: bool,
    pub contenders: Seq<Contender>,
    /// How many times an initializer was started.
    pub initializer_runs: nat,
    /// How many times a produced value was stored into the cell.
    pub stores: nat,
    /// How many initializers failed.
    pub failures: nat,
}

/// One thing that can happen next.
pub enum Move {
    /// The base lock grants the access that contender `who` waits for.
    Grant { who: int },
    /// The initializer of contender `who` completes.
    Finish { who: int, succeeded: bool },
    /// Contender `who` drops the guard it was handed.
    Release { who: int },
}

pub open spec fn transition(exclusive_mode: bool, phase: InitPhase, event: InitEvent) -> (InitPhase, InitAction) {
    if exclusive_mode {
        write_transition(phase, event)
    } else {
        read_transition(phase, event)
    }
}

pub open spec fn start_phase(exclusive_mode: bool) -> InitPhase {
    if exclusive_mode {
        InitPhase::AcquireExclusive
    } else {
        InitPhase::AcquireShared
    }
}

pub open spec fn is_store(action: InitAction) -> bool {
    action == InitAction::StoreThenShared || action == InitAction::StoreThenHandOutExclusive
}

impl Contender {
    pub open spec fn holds_exclusive(self) -> bool {
        !self.released && (self.phase == InitPhase::RunInitializer || (self.exclusive_mode
            && self.phase == InitPhase::Done))
    }

    pub open spec fn holds_shared(self) -> bool {
        !self.released && !self.exclusive_mode && self.phase == InitPhase::Done
    }

    pub open spec fn holds_any(self) -> bool {
        self.holds_exclusive() || self.holds_shared()
    }
}

impl Contention {
    pub open spec fn valid(self, who: int) -> bool {
        0 <= who < self.contenders.len()
    }

    pub open spec fn exclusive_held(self) -> bool {
        exists|j: int| self.valid(j) && #[trigger] self.contenders[j].holds_exclusive()
    }

    pub open spec fn any_held(self) -> bool {
        exists|j: int| self.valid(j) && #[trigger] self.contenders[j].holds_any()
    }

    pub open spec fn running(self) -> bool {
        exists|j: int| self.valid(j) && #[trigger] self.contenders[j].phase == InitPhase::RunInitializer
    }

    /// What the base lock allows: shared access while nobody holds exclusive
    /// access, exclusive access while nobody holds any.
    pub open spec fn can_grant(self, who: int) -> bool {
        &&& self.valid(who)
        &&& (self.contenders[who].phase == InitPhase::AcquireShared && !self.exclusive_held())
            || (self.contenders[who].phase == InitPhase::AcquireExclusive && !self.any_held())
    }

    /// Contender `who` observes `event` and acts on it.
    pub open spec fn apply(self, who: int, event: InitEvent) -> Contention {
        let c = self.contenders[who];
        let (phase, action) = transition(c.exclusive_mode, c.phase, event);
        Contention {
            present: self.present || is_store(action),
            contenders: self.contenders.update(who, Contender { phase, ..c }),
            initializer_runs: self.initializer_runs + if action == InitAction::StartInitializer {
                1nat
            } else {
                0nat
            },
            stores: self.stores + if is_store(action) {
                1nat
            } else {
                0nat
            },
            failures: self.failures + if action == InitAction::Fail {
                1nat
            } else {
                0nat
            },
        }
    }

    /// The state after `m`; a move that cannot happen changes nothing.
    pub open spec fn next(self, m: Move) -> Contention {
        match m {
            Move::Grant { who } => if self.can_grant(who) {
                let event = if self.contenders[who].phase == InitPhase::AcquireShared {
                    InitEvent::SharedAcquired { present: self.present }
                } else {
                    InitEvent::ExclusiveAcquired { present: self.present }
                };
                self.apply(who, event)
            } else {
                self
            },
            Move::Finish { who, succeeded } => if self.valid(who)
                && self.contenders[who].phase == InitPhase::RunInitializer {
                self.apply(who, InitEvent::InitializerFinished { succeeded })
            } else {
                self
            },
            Move::Release { who } => if self.valid(who) && self.contenders[who].phase
                == InitPhase::Done {
                Contention {
                    contenders: self.contenders.update(
                        who,
                        Contender { released: true, ..self.contenders[who] },
                    ),
                    ..self
                }
            } else {
                self
            },
        }
    }

    /// The state after each move of `moves` in turn.
    pub open spec fn run(self, moves: Seq<Move>) -> Contention
        decreases moves.len(),
    {
        if moves.len() == 0 {
            self
        } else {
            self.next(moves[0]).run(moves.drop_first())
        }
    }

    /// Callers of the given modes that have not started yet, on a cell that is
    /// present or absent.
    pub open spec fn initial(modes: Seq<bool>, present: bool) -> Contention {
        Contention {
            present,
            contenders: Seq::new(
                modes.len(),
                |i: int| Contender { exclusive_mode: modes[i], phase: start_phase(modes[i]), released: false },
            ),
            initializer_runs: 0,
            stores: 0,
            failures: 0,
        }
    }

    /// No two guards conflict: an exclusive holder is the only holder.
    pub open spec fn exclusion(self) -> bool {
        forall|i: int, j: int|
            self.valid(i) && self.valid(j) && i != j && #[trigger] self.contenders[i].holds_exclusive()
                ==> !(#[trigger] self.contenders[j].holds_any())
    }

    pub open spec fn inv(self, started_present: bool) -> bool {
        &&& self.exclusion()
        &&& forall|i: int|
            self.valid(i) && #[trigger] self.contenders[i].phase == InitPhase::RunInitializer
                ==> !self.present
        &&& forall|i: int|
            self.valid(i) && #[trigger] self.contenders[i].phase == InitPhase::Done ==> self.present
        &&& forall|i: int|
            self.valid(i) && (#[trigger] self.contenders[i]).released ==> self.contenders[i].phase
                == InitPhase::Done
        &&& self.initializer_runs == self.stores + self.failures + if self.running() {
            1nat
        } else {
            0nat
        }
        &&& self.stores <= 1
        &&& !self.present ==> self.stores == 0
        &&& started_present ==> self.present && self.stores == 0 && self.failures == 0
        &&& !started_present ==> (self.present <==> self.stores == 1)
    }
}

proof fn lemma_initial_inv(modes: Seq<bool>, present: bool)
    ensures
        Contention::initial(modes, present).inv(present),
{
    let s = Contention::initial(modes, present);
    assert(!s.running());
}

proof fn lemma_next_keeps_inv(s: Contention, m: Move, started_present: bool)
    requires
        s.inv(started_present),
    ensures
        s.next(m).inv(started_present),
        s.next(m).failures == s.failures || (m matches Move::Finish { succeeded, .. } && !succeeded),
{
    let t = s.next(m);
    match m {
        Move::Grant { who } => {
            if s.can_grant(who) {
                let c = s.contenders[who];
                if c.phase == InitPhase::AcquireExclusive {
                    assert forall|j: int| s.valid(j) implies !(#[trigger] s.contenders[j].holds_any()) by {}
                    assert(!s.running()) by {
                        if s.running() {
                            let j = choose|j: int| s.valid(j) && #[trigger] s.contenders[j].phase == InitPhase::RunInitializer;
                            assert(s.contenders[j].holds_any());
                        }
                    }
                } else {
                    assert forall|j: int| s.valid(j) implies !(#[trigger] s.contenders[j].holds_exclusive()) by {}
                    assert(!s.running()) by {
                        if s.running() {
                            let j = choose|j: int| s.valid(j) && #[trigger] s.contenders[j].phase == InitPhase::RunInitializer;
                            assert(s.contenders[j].holds_exclusive());
                        }
                    }
                }
                assert(t.running() == (t.contenders[who].phase == InitPhase::RunInitializer)) by {
                    if t.running() {
                        let j = choose|j: int| t.valid(j) && #[trigger] t.contenders[j].phase == InitPhase::RunInitializer;
                        if j != who {
                            assert(s.contenders[j].phase == InitPhase::RunInitializer);
                        }
                    }
                }
                assert(t.exclusion());
            }
        },
        Move::Finish { who, succeeded } => {
            if s.valid(who) && s.contenders[who].phase == InitPhase::RunInitializer {
                assert(s.contenders[who].holds_exclusive());
                assert(!t.running()) by {
                    if t.running() {
                        let j = choose|j: int| t.valid(j) && #[trigger] t.contenders[j].phase == InitPhase::RunInitializer;
                        assert(j != who);
                        assert(s.contenders[j].holds_any());
                    }
                }
                assert(s.running());
                assert forall|i: int| t.valid(i) && #[trigger] t.contenders[i].phase == InitPhase::Done implies t.present by {
                    if i != who {
                        assert(s.contenders[i].phase == InitPhase::Done);
                    }
                }
                assert(t.exclusion());
            }
        },
        Move::Release { who } => {
            if s.valid(who) && s.contenders[who].phase == InitPhase::Done {
                assert(t.running() == s.running()) by {
                    if t.running() {
                        let j = choose|j: int| t.valid(j) && #[trigger] t.contenders[j].phase == InitPhase::RunInitializer;
                        assert(s.contenders[j].phase == InitPhase::RunInitializer);
                    }
                    if s.running() {
                        let j = choose|j: int| s.valid(j) && #[trigger] s.contenders[j].phase == InitPhase::RunInitializer;
                        assert(t.contenders[j].phase == InitPhase::RunInitializer);
                    }
                }
                assert(t.exclusion());
            }
        },
    }
}

/// Whether every initializer that completes in `moves` succeeds.
pub open spec fn all_succeed(moves: Seq<Move>) -> bool {
    forall|k: int|
        0 <= k < moves.len() ==> !(#[trigger] moves[k] matches Move::Finish { succeeded, .. } && !succeeded)
}

proof fn lemma_run_keeps_inv(s: Contention, moves: Seq<Move>, started_present: bool)
    requires
        s.inv(started_present),
    ensures
        s.run(moves).inv(started_present),
        all_succeed(moves) ==> s.run(moves).failures == s.failures,
    decreases moves.len(),
{
    if moves.len() > 0 {
        lemma_next_keeps_inv(s, moves[0], started_present);
        let rest = moves.drop_first();
        assert(all_succeed(moves) ==> all_succeed(rest)) by {
            if all_succeed(moves) {
                assert forall|k: int| 0 <= k < rest.len() implies !(#[trigger] rest[k] matches Move::Finish { succeeded, .. } && !succeeded) by {
                    assert(rest[k] == moves[k + 1]);
                }
            }
        }
        if all_succeed(moves) {
            assert(!(moves[0] matches Move::Finish { succeeded, .. } && !succeeded));
        }
        lemma_run_keeps_inv(s.next(moves[0]), rest, started_present);
    }
}

/// Whatever callers contend and in whatever order the base lock serves them,
/// a caller that holds exclusive access is the only caller holding any
/// access.
pub proof fn lemma_exclusive_access_is_exclusive(modes: Seq<bool>, present: bool, moves: Seq<Move>)
    ensures
        Contention::initial(modes, present).run(moves).exclusion(),
{
    lemma_initial_inv(modes, present);
    lemma_run_keeps_inv(Contention::initial(modes, present), moves, present);
}

/// On a cell that starts absent, whatever callers contend: the cell is written
/// at most once, so all callers that finish see one value, and they all see
/// it present. When every initializer succeeds, at most one initializer is
/// ever started, and exactly one once any caller has finished.
pub proof fn lemma_initializer_runs_once(modes: Seq<bool>, moves: Seq<Move>)
    ensures
        ({
            let s = Contention::initial(modes, false).run(moves);
            &&& s.stores <= 1
            &&& forall|i: int| s.valid(i) && #[trigger] s.contenders[i].phase == InitPhase::Done ==> s.present
            &&& all_succeed(moves) ==> s.initializer_runs <= 1
            &&& all_succeed(moves) && (exists|i: int| s.valid(i) && #[trigger] s.contenders[i].phase == InitPhase::Done)
                ==> s.initializer_runs == 1
        }),
{
    let s0 = Contention::initial(modes, false);
    lemma_initial_inv(modes, false);
    lemma_run_keeps_inv(s0, moves, false);
    let s = s0.run(moves);
    if s.running() {
        let j = choose|j: int| s.valid(j) && #[trigger] s.contenders[j].phase == InitPhase::RunInitializer;
        assert(!s.present);
    }
}

/// On a cell that starts present, no initializer is ever started, whatever
/// callers contend.
pub proof fn lemma_present_cell_is_never_initialized(modes: Seq<bool>, moves: Seq<Move>)
    ensures
        Contention::initial(modes, true).run(moves).initializer_runs == 0,
{
    let s0 = Contention::initial(modes, true);
    lemma_initial_inv(modes, true);
    lemma_run_keeps_inv(s0, moves, true);
    let s = s0.run(moves);
    if s.running() {
        let j = choose|j: int| s.valid(j) && #[trigger] s.contenders[j].phase == InitPhase::RunInitializer;
        assert(!s.present);
    }
}

/// A shared-or-initialize caller that finds the cell present finishes with the
/// first shared access it is granted, and starts no initializer.
pub proof fn lemma_present_read_is_one_round_trip(s: Contention, who: int)
    requires
        s.present,
        s.can_grant(who),
        !s.contenders[who].exclusive_mode,
        s.contenders[who].phase == InitPhase::AcquireShared,
    ensures
        s.next(Move::Grant { who }).contenders[who].phase == InitPhase::Done,
        s.next(Move::Grant { who }).initializer_runs == s.initializer_runs,
        s.next(Move::Grant { who }).present,
{
}

} // verus!
