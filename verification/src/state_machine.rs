use vstd::prelude::*;
use vstd::string::StringExecFns;
use crate::error::Error;

verus! {

/// What the state machine asks its alarm to do after one cycle.
#[derive(Clone, Copy, PartialEq, Eq, Structural, Debug)]
pub enum Decision {
    NoAction,
    Trigger,
    RepeatTrigger,
    Recover,
    TriggerError,
    RepeatTriggerError,
    RecoverFromError,
}

/// Per-alarm cycle-counting state machine.
///
/// One instance exists per (check, entity, configured alarm). Each cycle it
/// consumes either a boolean "this cycle is bad" evaluation (`put`) or a
/// "data unavailable" hard-error signal (`put_error`) and decides which
/// action, if any, the alarm must dispatch this cycle.
///
/// The machine is in exactly one of three states: normal, alarmed or
/// erroring, where erroring takes priority over the underlying alarmed flag
/// while an error episode is active (`current_state`). Error tracking is
/// orthogonal to the good/bad cycle counters: an error episode neither reads
/// nor perturbs them.
pub struct StateMachine {
    /// Consecutive bad evaluations needed before the first trigger (positive).
    pub cycles: u32,
    /// Bad evaluations, while alarmed, suppressed between repeated triggers;
    /// zero means never repeat.
    pub repeat_cycles: u32,
    /// Consecutive good evaluations, while alarmed, needed to recover; zero
    /// means the first good evaluation recovers.
    pub recover_cycles: u32,
    /// Errors, while erroring, suppressed between repeated error triggers;
    /// zero means never repeat.
    pub error_repeat_cycles: u32,
    /// Bad-evaluation streak counter (before the first trigger and between
    /// repeated triggers).
    pub bad_count: u32,
    /// Good-evaluation streak counter while alarmed.
    pub good_count: u32,
    /// Error streak counter between repeated error triggers.
    pub error_count: u32,
    /// Whether the underlying good/bad tracking is currently alarmed.
    pub alarmed: bool,
    /// Whether an error episode is currently active.
    pub erroring: bool,
    /// Descriptive identifier used by the owning alarm in log lines.
    pub log_id: String,
}

/// The three externally visible states; exactly one holds at any time.
#[derive(Clone, Copy, PartialEq, Eq, Structural, Debug)]
pub enum MachineState {
    Normal,
    Alarmed,
    Erroring,
}

impl StateMachine {
    /// The externally visible state: an active error episode takes priority
    /// over the underlying alarmed flag.
    pub open spec fn current_state(self) -> MachineState {
        if self.erroring {
            MachineState::Erroring
        } else if self.alarmed {
            MachineState::Alarmed
        } else {
            MachineState::Normal
        }
    }

    /// The freshly constructed machine for the given configuration.
    pub open spec fn initial(
        cycles: u32,
        repeat_cycles: u32,
        recover_cycles: u32,
        error_repeat_cycles: u32,
        log_id: String,
    ) -> StateMachine {
        (StateMachine {
            cycles,
            repeat_cycles,
            recover_cycles,
            error_repeat_cycles,
            bad_count: 0,
            good_count: 0,
            error_count: 0,
            alarmed: false,
            erroring: false,
            log_id,
        })
    }

    /// The step taken by the ordinary good/bad tracking (no error episode
    /// active) on one evaluation; `bad` is the evaluation after any
    /// inversion by the owning alarm.
    pub open spec fn spec_track(self, bad: bool) -> (StateMachine, Decision) {
        if !self.alarmed {
            if bad {
                if self.bad_count + 1 >= self.cycles {
                    (
                        (StateMachine { bad_count: 0, good_count: 0, alarmed: true, ..self }),
                        Decision::Trigger,
                    )
                } else {
                    (
                        (StateMachine { bad_count: (self.bad_count + 1) as u32, ..self }),
                        Decision::NoAction,
                    )
                }
            } else {
                ((StateMachine { bad_count: 0, ..self }), Decision::NoAction)
            }
        } else {
            if bad {
                if self.repeat_cycles > 0 && self.bad_count >= self.repeat_cycles {
                    (
                        (StateMachine { bad_count: 0, good_count: 0, ..self }),
                        Decision::RepeatTrigger,
                    )
                } else if self.repeat_cycles > 0 {
                    (
                        (StateMachine {
                            bad_count: (self.bad_count + 1) as u32,
                            good_count: 0,
                            ..self
                        }),
                        Decision::NoAction,
                    )
                } else {
                    ((StateMachine { good_count: 0, ..self }), Decision::NoAction)
                }
            } else {
                if self.good_count + 1 >= self.recover_cycles {
                    (
                        (StateMachine { bad_count: 0, good_count: 0, alarmed: false, ..self }),
                        Decision::Recover,
                    )
                } else {
                    (
                        (StateMachine { good_count: (self.good_count + 1) as u32, ..self }),
                        Decision::NoAction,
                    )
                }
            }
        }
    }

    /// The step taken on one evaluation. While an error episode is active, a
    /// successful evaluation (good or bad) only ends the episode: the machine
    /// returns to whatever the underlying tracking implies, emits
    /// `RecoverFromError`, and the evaluation itself is consumed by the
    /// recovery (the owning alarm feeds it again to obtain the fall-back
    /// decision).
    pub open spec fn spec_put(self, bad: bool) -> (StateMachine, Decision) {
        if self.erroring {
            (
                (StateMachine { erroring: false, error_count: 0, ..self }),
                Decision::RecoverFromError,
            )
        } else {
            self.spec_track(bad)
        }
    }

    /// The step taken on one hard-error signal. The good/bad counters are
    /// left untouched.
    pub open spec fn spec_put_error(self) -> (StateMachine, Decision) {
        if !self.erroring {
            (
                (StateMachine { erroring: true, error_count: 0, ..self }),
                Decision::TriggerError,
            )
        } else if self.error_repeat_cycles > 0 && self.error_count >= self.error_repeat_cycles {
            ((StateMachine { error_count: 0, ..self }), Decision::RepeatTriggerError)
        } else if self.error_repeat_cycles > 0 {
            (
                (StateMachine { error_count: (self.error_count + 1) as u32, ..self }),
                Decision::NoAction,
            )
        } else {
            (self, Decision::NoAction)
        }
    }

    /// Builds a machine from the four configured cycle counts; `cycles` must
    /// be positive, the other three may be zero.
    pub fn new(
        cycles: u32,
        repeat_cycles: u32,
        recover_cycles: u32,
        error_repeat_cycles: u32,
        log_id: String,
    ) -> (r: Result<StateMachine, Error>)
        ensures
            cycles == 0 ==> (r matches Err(e) && e.0@ == "'cycles' cannot be 0."@),
            cycles > 0 ==> r == Ok::<StateMachine, Error>(
                StateMachine::initial(
                    cycles,
                    repeat_cycles,
                    recover_cycles,
                    error_repeat_cycles,
                    log_id,
                ),
            ),
    {
        if cycles == 0 {
            Err(Error(String::from_str("'cycles' cannot be 0.")))
        } else {
            Ok(
                StateMachine {
                    cycles,
                    repeat_cycles,
                    recover_cycles,
                    error_repeat_cycles,
                    bad_count: 0,
                    good_count: 0,
                    error_count: 0,
                    alarmed: false,
                    erroring: false,
                    log_id,
                },
            )
        }
    }

    /// Feeds one evaluation; `bad` is the evaluation after any inversion.
    pub fn put(&mut self, bad: bool) -> (r: Decision)
        ensures
            *final(self) == old(self).spec_put(bad).0,
            r == old(self).spec_put(bad).1,
    {
        if self.erroring {
            self.erroring = false;
            self.error_count = 0;
            Decision::RecoverFromError
        } else if !self.alarmed {
            if bad {
                if self.bad_count as u64 + 1 >= self.cycles as u64 {
                    self.bad_count = 0;
                    self.good_count = 0;
                    self.alarmed = true;
                    Decision::Trigger
                } else {
                    self.bad_count = self.bad_count + 1;
                    Decision::NoAction
                }
            } else {
                self.bad_count = 0;
                Decision::NoAction
            }
        } else {
            if bad {
                if self.repeat_cycles > 0 && self.bad_count >= self.repeat_cycles {
                    self.bad_count = 0;
                    self.good_count = 0;
                    Decision::RepeatTrigger
                } else if self.repeat_cycles > 0 {
                    self.bad_count = self.bad_count + 1;
                    self.good_count = 0;
                    Decision::NoAction
                } else {
                    self.good_count = 0;
                    Decision::NoAction
                }
            } else {
                if self.good_count as u64 + 1 >= self.recover_cycles as u64 {
                    self.bad_count = 0;
                    self.good_count = 0;
                    self.alarmed = false;
                    Decision::Recover
                } else {
                    self.good_count = self.good_count + 1;
                    Decision::NoAction
                }
            }
        }
    }

    /// Feeds one hard-error signal.
    pub fn put_error(&mut self) -> (r: Decision)
        ensures
            *final(self) == old(self).spec_put_error().0,
            r == old(self).spec_put_error().1,
    {
        if !self.erroring {
            self.erroring = true;
            self.error_count = 0;
            Decision::TriggerError
        } else if self.error_repeat_cycles > 0 && self.error_count >= self.error_repeat_cycles {
            self.error_count = 0;
            Decision::RepeatTriggerError
        } else if self.error_repeat_cycles > 0 {
            self.error_count = self.error_count + 1;
            Decision::NoAction
        } else {
            Decision::NoAction
        }
    }

    /// The machine after feeding each evaluation of `evals` in order.
    pub open spec fn spec_run(self, evals: Seq<bool>) -> StateMachine
        decreases evals.len(),
    {
        if evals.len() == 0 {
            self
        } else {
            self.spec_put(evals[0]).0.spec_run(evals.drop_first())
        }
    }

    /// The decisions emitted while feeding each evaluation of `evals` in
    /// order.
    pub open spec fn spec_run_decisions(self, evals: Seq<bool>) -> Seq<Decision>
        decreases evals.len(),
    {
        if evals.len() == 0 {
            Seq::empty()
        } else {
            seq![self.spec_put(evals[0]).1] + self.spec_put(evals[0]).0.spec_run_decisions(
                evals.drop_first(),
            )
        }
    }

    /// The machine after `n` consecutive hard-error signals.
    pub open spec fn spec_run_errors(self, n: nat) -> StateMachine
        decreases n,
    {
        if n == 0 {
            self
        } else {
            self.spec_put_error().0.spec_run_errors((n - 1) as nat)
        }
    }

    /// The decisions emitted by `n` consecutive hard-error signals.
    pub open spec fn spec_run_error_decisions(self, n: nat) -> Seq<Decision>
        decreases n,
    {
        if n == 0 {
            Seq::empty()
        } else {
            seq![self.spec_put_error().1] + self.spec_put_error().0.spec_run_error_decisions(
                (n - 1) as nat,
            )
        }
    }
}

/// The run emits exactly one decision per evaluation.
pub proof fn lemma_run_decisions_len(sm: StateMachine, evals: Seq<bool>)
    ensures
        sm.spec_run_decisions(evals).len() == evals.len(),
    decreases evals.len(),
{
    if evals.len() > 0 {
        lemma_run_decisions_len(sm.spec_put(evals[0]).0, evals.drop_first());
    }
}

/// Running a sequence of evaluations splits at any point: the suffix runs
/// from the prefix's final state, and the decisions concatenate.
pub proof fn lemma_run_split(sm: StateMachine, evals: Seq<bool>, n: int)
    requires
        0 <= n <= evals.len(),
    ensures
        sm.spec_run(evals) == sm.spec_run(evals.take(n)).spec_run(evals.skip(n)),
        sm.spec_run_decisions(evals) == sm.spec_run_decisions(evals.take(n)) + sm.spec_run(
            evals.take(n),
        ).spec_run_decisions(evals.skip(n)),
    decreases n,
{
    if n == 0 {
        assert(evals.take(0) =~= Seq::<bool>::empty());
        assert(evals.skip(0) =~= evals);
        assert(sm.spec_run_decisions(evals) =~= Seq::<Decision>::empty() + sm.spec_run_decisions(
            evals,
        ));
    } else {
        let (sm1, d1) = sm.spec_put(evals[0]);
        lemma_run_split(sm1, evals.drop_first(), n - 1);
        assert(evals.drop_first().take(n - 1) =~= evals.take(n).drop_first());
        assert(evals.drop_first().skip(n - 1) =~= evals.skip(n));
        assert(evals.take(n)[0] == evals[0]);
        assert(sm.spec_run_decisions(evals) =~= sm.spec_run_decisions(evals.take(n)) + sm.spec_run(
            evals.take(n),
        ).spec_run_decisions(evals.skip(n)));
    }
}

/// While not alarmed and not erroring, a run of bad evaluations too short to
/// reach `cycles` only advances the streak counter and decides nothing.
proof fn lemma_bad_streak_counts(sm: StateMachine, evals: Seq<bool>)
    requires
        !sm.alarmed,
        !sm.erroring,
        forall|i: int| 0 <= i < evals.len() ==> evals[i],
        sm.bad_count + evals.len() < sm.cycles,
    ensures
        sm.spec_run(evals) == (StateMachine {
            bad_count: (sm.bad_count + evals.len()) as u32,
            ..sm
        }),
        forall|i: int|
            0 <= i < evals.len() ==> sm.spec_run_decisions(evals)[i] == Decision::NoAction,
    decreases evals.len(),
{
    if evals.len() > 0 {
        let (sm1, d1) = sm.spec_put(evals[0]);
        lemma_bad_streak_counts(sm1, evals.drop_first());
        lemma_run_decisions_len(sm1, evals.drop_first());
        assert forall|i: int|
            0 <= i < evals.len() implies sm.spec_run_decisions(evals)[i]
            == Decision::NoAction by {
            if i > 0 {
                assert(sm.spec_run_decisions(evals)[i] == sm1.spec_run_decisions(
                    evals.drop_first(),
                )[i - 1]);
            }
        }
    }
}

/// From a bad streak whose remaining length exactly reaches `cycles`, every
/// evaluation decides `NoAction` except the last, which decides `Trigger`
/// and moves the machine to the alarmed state with fresh counters.
proof fn lemma_trigger_at_threshold(sm: StateMachine, evals: Seq<bool>)
    requires
        !sm.alarmed,
        !sm.erroring,
        evals.len() >= 1,
        forall|i: int| 0 <= i < evals.len() ==> evals[i],
        sm.bad_count + evals.len() == sm.cycles,
    ensures
        forall|i: int|
            0 <= i < evals.len() - 1 ==> sm.spec_run_decisions(evals)[i] == Decision::NoAction,
        sm.spec_run_decisions(evals)[evals.len() - 1] == Decision::Trigger,
        sm.spec_run(evals) == (StateMachine {
            bad_count: 0,
            good_count: 0,
            alarmed: true,
            ..sm
        }),
    decreases evals.len(),
{
    let (sm1, d1) = sm.spec_put(evals[0]);
    lemma_run_decisions_len(sm1, evals.drop_first());
    if evals.len() == 1 {
        assert(evals.drop_first() =~= Seq::<bool>::empty());
        assert(sm1.spec_run(evals.drop_first()) == sm1);
        assert(sm1.spec_run_decisions(evals.drop_first()) =~= Seq::<Decision>::empty());
        assert(sm.spec_run_decisions(evals) =~= seq![d1]);
    } else {
        lemma_trigger_at_threshold(sm1, evals.drop_first());
        assert forall|i: int|
            0 <= i < evals.len() - 1 implies sm.spec_run_decisions(evals)[i]
            == Decision::NoAction by {
            if i > 0 {
                assert(sm.spec_run_decisions(evals)[i] == sm1.spec_run_decisions(
                    evals.drop_first(),
                )[i - 1]);
            }
        }
        assert(sm.spec_run_decisions(evals)[evals.len() - 1] == sm1.spec_run_decisions(
            evals.drop_first(),
        )[evals.len() - 2]);
    }
}

/// Exactly `cycles` consecutive bad evaluations are needed before the first
/// trigger: from a fresh machine, every evaluation of a run of `cycles` bad
/// evaluations decides `NoAction` except the last, which decides `Trigger`
/// and moves the machine to the alarmed state.
pub proof fn lemma_first_trigger_needs_cycles(sm: StateMachine, evals: Seq<bool>)
    requires
        !sm.alarmed,
        !sm.erroring,
        sm.bad_count == 0,
        sm.cycles > 0,
        evals.len() == sm.cycles,
        forall|i: int| 0 <= i < evals.len() ==> evals[i],
    ensures
        forall|i: int|
            0 <= i < evals.len() - 1 ==> sm.spec_run_decisions(evals)[i] == Decision::NoAction,
        sm.spec_run_decisions(evals)[evals.len() - 1] == Decision::Trigger,
        sm.spec_run(evals).alarmed,
        sm.spec_run(evals).bad_count == 0,
        sm.spec_run(evals).good_count == 0,
{
    lemma_trigger_at_threshold(sm, evals);
}

/// A good evaluation before the first trigger resets the bad streak: a run of
/// `cycles - 1` bad evaluations, one good one, and `cycles - 1` further bad
/// evaluations decides `NoAction` throughout and never alarms.
pub proof fn lemma_good_evaluation_resets_streak(sm: StateMachine, evals: Seq<bool>)
    requires
        !sm.alarmed,
        !sm.erroring,
        sm.bad_count == 0,
        sm.cycles > 0,
        evals.len() == 2 * sm.cycles - 1,
        forall|i: int| 0 <= i < evals.len() ==> (evals[i] <==> i != sm.cycles - 1),
    ensures
        forall|i: int|
            0 <= i < evals.len() ==> sm.spec_run_decisions(evals)[i] == Decision::NoAction,
        !sm.spec_run(evals).alarmed,
{
    let n = sm.cycles as int;
    let first = evals.take(n - 1);
    assert(forall|i: int| 0 <= i < first.len() ==> first[i]);
    lemma_bad_streak_counts(sm, first);
    lemma_run_split(sm, evals, n - 1);
    let sm1 = sm.spec_run(first);
    let rest = evals.skip(n - 1);
    assert(rest.len() == n);
    assert(!rest[0]);
    let (sm2, d2) = sm1.spec_put(rest[0]);
    assert(d2 == Decision::NoAction);
    assert(sm2.bad_count == 0);
    assert(!sm2.alarmed);
    lemma_run_split(sm1, rest, 1);
    let one = rest.take(1);
    assert(one.len() == 1);
    assert(one[0] == rest[0]);
    assert(one.drop_first() =~= Seq::<bool>::empty());
    assert(sm2.spec_run(one.drop_first()) == sm2);
    assert(sm2.spec_run_decisions(one.drop_first()) =~= Seq::<Decision>::empty());
    assert(sm1.spec_run(one) == sm2);
    assert(sm1.spec_run_decisions(one) =~= seq![d2]);
    let rest2 = rest.skip(1);
    assert(forall|i: int| 0 <= i < rest2.len() ==> rest2[i]);
    assert(rest2.len() == n - 1);
    lemma_bad_streak_counts(sm2, rest2);
    lemma_run_decisions_len(sm, first);
    lemma_run_decisions_len(sm1, one);
    lemma_run_decisions_len(sm2, rest2);
    assert forall|i: int|
        0 <= i < evals.len() implies sm.spec_run_decisions(evals)[i] == Decision::NoAction by {
        if i < n - 1 {
            assert(sm.spec_run_decisions(evals)[i] == sm.spec_run_decisions(first)[i]);
        } else if i == n - 1 {
            assert(sm.spec_run_decisions(evals)[i] == sm1.spec_run_decisions(rest)[0]);
            assert(sm1.spec_run_decisions(rest)[0] == sm1.spec_run_decisions(one)[0]);
        } else {
            assert(sm.spec_run_decisions(evals)[i] == sm1.spec_run_decisions(rest)[i - (n - 1)]);
            assert(sm1.spec_run_decisions(rest)[i - (n - 1)] == sm2.spec_run_decisions(rest2)[i
                - n]);
        }
    }
}

/// While alarmed, a run of bad evaluations that does not exceed the repeat
/// threshold only advances the streak counter and decides nothing.
proof fn lemma_alarmed_bad_streak(sm: StateMachine, evals: Seq<bool>)
    requires
        sm.alarmed,
        !sm.erroring,
        sm.repeat_cycles >= 1,
        forall|i: int| 0 <= i < evals.len() ==> evals[i],
        sm.bad_count + evals.len() <= sm.repeat_cycles,
    ensures
        sm.spec_run(evals) == (StateMachine {
            bad_count: (sm.bad_count + evals.len()) as u32,
            good_count: if evals.len() > 0 {
                0u32
            } else {
                sm.good_count
            },
            ..sm
        }),
        forall|i: int|
            0 <= i < evals.len() ==> sm.spec_run_decisions(evals)[i] == Decision::NoAction,
    decreases evals.len(),
{
    if evals.len() > 0 {
        let (sm1, d1) = sm.spec_put(evals[0]);
        lemma_alarmed_bad_streak(sm1, evals.drop_first());
        lemma_run_decisions_len(sm1, evals.drop_first());
        assert forall|i: int|
            0 <= i < evals.len() implies sm.spec_run_decisions(evals)[i]
            == Decision::NoAction by {
            if i > 0 {
                assert(sm.spec_run_decisions(evals)[i] == sm1.spec_run_decisions(
                    evals.drop_first(),
                )[i - 1]);
            }
        }
    }
}

/// While alarmed with `repeat_cycles = R >= 1` and a fresh streak (as left by
/// the trigger), `R` further bad evaluations are suppressed and the
/// `R + 1`th emits `RepeatTrigger` and resets the streak.
pub proof fn lemma_repeat_trigger_after_repeat_cycles(sm: StateMachine, evals: Seq<bool>)
    requires
        sm.alarmed,
        !sm.erroring,
        sm.bad_count == 0,
        sm.repeat_cycles >= 1,
        evals.len() == sm.repeat_cycles + 1,
        forall|i: int| 0 <= i < evals.len() ==> evals[i],
    ensures
        forall|i: int|
            0 <= i < evals.len() - 1 ==> sm.spec_run_decisions(evals)[i] == Decision::NoAction,
        sm.spec_run_decisions(evals)[evals.len() - 1] == Decision::RepeatTrigger,
        sm.spec_run(evals).alarmed,
        sm.spec_run(evals).bad_count == 0,
{
    let m = evals.len() - 1;
    let first = evals.take(m);
    assert(forall|i: int| 0 <= i < first.len() ==> first[i]);
    lemma_alarmed_bad_streak(sm, first);
    lemma_run_split(sm, evals, m);
    let sm1 = sm.spec_run(first);
    let last = evals.skip(m);
    assert(last.len() == 1);
    assert(last[0]);
    assert(last.drop_first() =~= Seq::<bool>::empty());
    assert(sm1.bad_count == sm.repeat_cycles);
    let (sm2, d2) = sm1.spec_put(last[0]);
    assert(d2 == Decision::RepeatTrigger);
    assert(sm2.spec_run(last.drop_first()) == sm2);
    assert(sm2.spec_run_decisions(last.drop_first()) =~= Seq::<Decision>::empty());
    assert(sm1.spec_run_decisions(last) =~= seq![d2]);
    assert(sm1.spec_run(last) == sm2);
    lemma_run_decisions_len(sm, first);
    assert forall|i: int|
        0 <= i < evals.len() - 1 implies sm.spec_run_decisions(evals)[i]
        == Decision::NoAction by {
        assert(sm.spec_run_decisions(evals)[i] == sm.spec_run_decisions(first)[i]);
    }
    assert(sm.spec_run_decisions(evals)[evals.len() - 1] == sm1.spec_run_decisions(last)[0]);
}

/// While alarmed and `repeat_cycles = 0`, bad evaluations never repeat the
/// trigger.
pub proof fn lemma_never_repeat_when_zero(sm: StateMachine, evals: Seq<bool>)
    requires
        sm.alarmed,
        !sm.erroring,
        sm.repeat_cycles == 0,
        forall|i: int| 0 <= i < evals.len() ==> evals[i],
    ensures
        forall|i: int|
            0 <= i < evals.len() ==> sm.spec_run_decisions(evals)[i] == Decision::NoAction,
        sm.spec_run(evals).alarmed,
    decreases evals.len(),
{
    if evals.len() > 0 {
        let (sm1, d1) = sm.spec_put(evals[0]);
        lemma_never_repeat_when_zero(sm1, evals.drop_first());
        lemma_run_decisions_len(sm1, evals.drop_first());
        assert forall|i: int|
            0 <= i < evals.len() implies sm.spec_run_decisions(evals)[i]
            == Decision::NoAction by {
            if i > 0 {
                assert(sm.spec_run_decisions(evals)[i] == sm1.spec_run_decisions(
                    evals.drop_first(),
                )[i - 1]);
            }
        }
    }
}

/// While alarmed, a run of good evaluations shorter than the recovery
/// threshold only advances the good streak and decides nothing.
proof fn lemma_alarmed_good_streak(sm: StateMachine, evals: Seq<bool>)
    requires
        sm.alarmed,
        !sm.erroring,
        forall|i: int| 0 <= i < evals.len() ==> !evals[i],
        sm.good_count + evals.len() < sm.recover_cycles,
    ensures
        sm.spec_run(evals) == (StateMachine {
            good_count: (sm.good_count + evals.len()) as u32,
            ..sm
        }),
        forall|i: int|
            0 <= i < evals.len() ==> sm.spec_run_decisions(evals)[i] == Decision::NoAction,
    decreases evals.len(),
{
    if evals.len() > 0 {
        let (sm1, d1) = sm.spec_put(evals[0]);
        lemma_alarmed_good_streak(sm1, evals.drop_first());
        lemma_run_decisions_len(sm1, evals.drop_first());
        assert forall|i: int|
            0 <= i < evals.len() implies sm.spec_run_decisions(evals)[i]
            == Decision::NoAction by {
            if i > 0 {
                assert(sm.spec_run_decisions(evals)[i] == sm1.spec_run_decisions(
                    evals.drop_first(),
                )[i - 1]);
            }
        }
    }
}

/// While alarmed with `recover_cycles = C >= 1` and a fresh good streak, `C`
/// consecutive good evaluations emit `Recover` on the `C`th and return the
/// machine to the normal state.
pub proof fn lemma_recover_after_recover_cycles(sm: StateMachine, evals: Seq<bool>)
    requires
        sm.alarmed,
        !sm.erroring,
        sm.good_count == 0,
        sm.recover_cycles >= 1,
        evals.len() == sm.recover_cycles,
        forall|i: int| 0 <= i < evals.len() ==> !evals[i],
    ensures
        forall|i: int|
            0 <= i < evals.len() - 1 ==> sm.spec_run_decisions(evals)[i] == Decision::NoAction,
        sm.spec_run_decisions(evals)[evals.len() - 1] == Decision::Recover,
        !sm.spec_run(evals).alarmed,
        !sm.spec_run(evals).erroring,
{
    let m = evals.len() - 1;
    let first = evals.take(m);
    assert(forall|i: int| 0 <= i < first.len() ==> !first[i]);
    lemma_alarmed_good_streak(sm, first);
    lemma_run_split(sm, evals, m);
    let sm1 = sm.spec_run(first);
    let last = evals.skip(m);
    assert(last.len() == 1);
    assert(!last[0]);
    assert(last.drop_first() =~= Seq::<bool>::empty());
    assert(sm1.good_count + 1 >= sm.recover_cycles);
    let (sm2, d2) = sm1.spec_put(last[0]);
    assert(d2 == Decision::Recover);
    assert(sm2.spec_run(last.drop_first()) == sm2);
    assert(sm2.spec_run_decisions(last.drop_first()) =~= Seq::<Decision>::empty());
    assert(sm1.spec_run_decisions(last) =~= seq![d2]);
    assert(sm1.spec_run(last) == sm2);
    lemma_run_decisions_len(sm, first);
    assert forall|i: int|
        0 <= i < evals.len() - 1 implies sm.spec_run_decisions(evals)[i]
        == Decision::NoAction by {
        assert(sm.spec_run_decisions(evals)[i] == sm.spec_run_decisions(first)[i]);
    }
    assert(sm.spec_run_decisions(evals)[evals.len() - 1] == sm1.spec_run_decisions(last)[0]);
}

/// While alarmed and `recover_cycles = 0`, the first good evaluation recovers
/// immediately.
pub proof fn lemma_recover_immediately_when_zero(sm: StateMachine)
    requires
        sm.alarmed,
        !sm.erroring,
        sm.recover_cycles == 0,
    ensures
        sm.spec_put(false).1 == Decision::Recover,
        !sm.spec_put(false).0.alarmed,
{
}

/// While alarmed, one bad evaluation resets the good-evaluation streak.
pub proof fn lemma_bad_evaluation_resets_recovery(sm: StateMachine)
    requires
        sm.alarmed,
        !sm.erroring,
    ensures
        sm.spec_put(true).0.good_count == 0,
        sm.spec_put(true).0.alarmed,
{
}

/// A hard-error signal never touches the evaluation counters or the alarmed
/// flag.
pub proof fn lemma_error_signal_preserves_tracking(sm: StateMachine)
    ensures
        sm.spec_put_error().0.bad_count == sm.bad_count,
        sm.spec_put_error().0.good_count == sm.good_count,
        sm.spec_put_error().0.alarmed == sm.alarmed,
{
}

/// While erroring, a run of errors that does not exceed the error-repeat
/// threshold only advances the error streak and decides nothing.
proof fn lemma_error_streak_counts(sm: StateMachine, n: nat)
    requires
        sm.erroring,
        sm.error_repeat_cycles >= 1,
        sm.error_count + n <= sm.error_repeat_cycles,
    ensures
        sm.spec_run_errors(n) == (StateMachine { error_count: (sm.error_count + n) as u32, ..sm }),
        sm.spec_run_error_decisions(n).len() == n,
        forall|i: int| 0 <= i < n ==> sm.spec_run_error_decisions(n)[i] == Decision::NoAction,
    decreases n,
{
    if n > 0 {
        let sm1 = sm.spec_put_error().0;
        lemma_error_streak_counts(sm1, (n - 1) as nat);
        assert forall|i: int|
            0 <= i < n implies sm.spec_run_error_decisions(n)[i] == Decision::NoAction by {
            if i > 0 {
                assert(sm.spec_run_error_decisions(n)[i] == sm1.spec_run_error_decisions(
                    (n - 1) as nat,
                )[i - 1]);
            }
        }
    }
}

/// From an error streak whose remaining length exactly exceeds the repeat
/// threshold, every error decides `NoAction` except the last, which decides
/// `RepeatTriggerError` and resets the streak.
proof fn lemma_error_trigger_at_threshold(sm: StateMachine, n: nat)
    requires
        sm.erroring,
        sm.error_repeat_cycles >= 1,
        n >= 1,
        sm.error_count + n == sm.error_repeat_cycles + 1,
    ensures
        sm.spec_run_error_decisions(n).len() == n,
        forall|i: int| 0 <= i < n - 1 ==> sm.spec_run_error_decisions(n)[i] == Decision::NoAction,
        sm.spec_run_error_decisions(n)[n - 1] == Decision::RepeatTriggerError,
        sm.spec_run_errors(n) == (StateMachine { error_count: 0, ..sm }),
    decreases n,
{
    let sm1 = sm.spec_put_error().0;
    if n == 1 {
        assert(sm1.spec_run_errors(0) == sm1);
        assert(sm1.spec_run_error_decisions(0) =~= Seq::<Decision>::empty());
        assert(sm.spec_run_error_decisions(n) =~= seq![sm.spec_put_error().1]);
    } else {
        lemma_error_trigger_at_threshold(sm1, (n - 1) as nat);
        assert forall|i: int|
            0 <= i < n - 1 implies sm.spec_run_error_decisions(n)[i] == Decision::NoAction by {
            if i > 0 {
                assert(sm.spec_run_error_decisions(n)[i] == sm1.spec_run_error_decisions(
                    (n - 1) as nat,
                )[i - 1]);
            }
        }
        assert(sm.spec_run_error_decisions(n)[n - 1] == sm1.spec_run_error_decisions(
            (n - 1) as nat,
        )[n - 2]);
    }
}

/// While erroring with `error_repeat_cycles = E >= 1` and a fresh streak (as
/// left by the error trigger), `E` further errors are suppressed and the
/// `E + 1`th emits `RepeatTriggerError` and resets the streak.
pub proof fn lemma_repeat_error_after_error_repeat_cycles(sm: StateMachine, n: nat)
    requires
        sm.erroring,
        sm.error_count == 0,
        sm.error_repeat_cycles >= 1,
        n == sm.error_repeat_cycles + 1,
    ensures
        sm.spec_run_error_decisions(n).len() == n,
        forall|i: int| 0 <= i < n - 1 ==> sm.spec_run_error_decisions(n)[i] == Decision::NoAction,
        sm.spec_run_error_decisions(n)[n - 1] == Decision::RepeatTriggerError,
        sm.spec_run_errors(n).erroring,
        sm.spec_run_errors(n).error_count == 0,
{
    lemma_error_trigger_at_threshold(sm, n);
}

/// While erroring and `error_repeat_cycles = 0`, errors never repeat the
/// error trigger.
pub proof fn lemma_never_repeat_error_when_zero(sm: StateMachine, n: nat)
    requires
        sm.erroring,
        sm.error_repeat_cycles == 0,
    ensures
        sm.spec_run_error_decisions(n).len() == n,
        forall|i: int| 0 <= i < n ==> sm.spec_run_error_decisions(n)[i] == Decision::NoAction,
        sm.spec_run_errors(n).erroring,
    decreases n,
{
    if n > 0 {
        let sm1 = sm.spec_put_error().0;
        lemma_never_repeat_error_when_zero(sm1, (n - 1) as nat);
        assert forall|i: int|
            0 <= i < n implies sm.spec_run_error_decisions(n)[i] == Decision::NoAction by {
            if i > 0 {
                assert(sm.spec_run_error_decisions(n)[i] == sm1.spec_run_error_decisions(
                    (n - 1) as nat,
                )[i - 1]);
            }
        }
    }
}

/// Error tracking is independent of evaluation tracking: a single error in
/// the normal state emits `TriggerError`, the next successful evaluation
/// emits `RecoverFromError`, and the good/bad streak counters and the alarmed
/// flag come through both steps unperturbed.
pub proof fn lemma_error_episode_is_independent(sm: StateMachine, bad: bool)
    requires
        !sm.alarmed,
        !sm.erroring,
    ensures
        sm.spec_put_error().1 == Decision::TriggerError,
        sm.spec_put_error().0.current_state() == MachineState::Erroring,
        ({
            let after = sm.spec_put_error().0.spec_put(bad).0;
            &&& sm.spec_put_error().0.spec_put(bad).1 == Decision::RecoverFromError
            &&& after.bad_count == sm.bad_count
            &&& after.good_count == sm.good_count
            &&& after.alarmed == sm.alarmed
            &&& !after.erroring
        }),
{
}

} // verus!
