use vstd::prelude::*;
use vstd::string::StringExecFns;
use std::sync::Arc;
use crate::action::{Action, ActionBase, Backend};
use crate::error::Error;
use crate::placeholder::{merge_placeholders, PlaceholderMap};
use crate::state_machine::{Decision, StateMachine};

verus! {

/// Threshold-evaluation capability: decides whether one sampled item is bad
/// under this sink's configured thresholds.
pub trait DataSink: Sized {
    type Item;

    /// Whether `item` violates the configured thresholds.
    open spec fn spec_bad(&self, item: Self::Item) -> bool {
        vstd::pervasive::arbitrary()
    }

    /// Evaluates one sampled item.
    fn evaluate(&self, item: &Self::Item) -> (r: bool)
        ensures
            r == self.spec_bad(*item),
    ;

    /// Builds the sink for one alarm configuration.
    fn from_config(alarm_config: &crate::config::Alarm) -> Result<Self, Error>;
}

/// Binds a state machine to a data evaluation function and to up to three
/// bound actions (primary, recover, error), merges placeholders and reports
/// evaluation results.
pub struct AlarmBase<S: DataSink, A: Action> {
    pub name: String,
    pub id: String,
    pub action: Arc<ActionBase<Backend<A>>>,
    pub placeholders: PlaceholderMap,
    pub recover_action: Option<Arc<ActionBase<Backend<A>>>>,
    pub recover_placeholders: PlaceholderMap,
    pub error_action: Option<Arc<ActionBase<Backend<A>>>>,
    pub error_placeholders: PlaceholderMap,
    pub invert: bool,
    pub state_machine: StateMachine,
    pub data_sink: S,
    pub log_id: String,
}

impl<S: DataSink, A: Action> AlarmBase<S, A> {
    /// The effective evaluation fed to the state machine: the sink's verdict,
    /// negated when `invert` is set.
    pub open spec fn spec_bad(self, item: S::Item) -> bool {
        self.data_sink.spec_bad(item) != self.invert
    }

    /// State machine and dispatched decision after feeding one evaluation.
    /// While recovering from an error episode the evaluation is fed once
    /// more, so that the decision falls back to whatever the underlying
    /// normal/alarmed tracking now requires.
    pub open spec fn spec_data_step(self, item: S::Item) -> (StateMachine, Decision) {
        let bad = self.spec_bad(item);
        let step = self.state_machine.spec_put(bad);
        if step.1 == Decision::RecoverFromError {
            step.0.spec_put(bad)
        } else {
            step
        }
    }

    /// The alarm after one cycle input: an available sample is evaluated, an
    /// unavailable one is fed as a hard-error signal.
    pub open spec fn spec_after_input(self, input: Result<S::Item, Error>) -> AlarmBase<S, A> {
        match input {
            Ok(item) => (AlarmBase { state_machine: self.spec_data_step(item).0, ..self }),
            Err(_) => (AlarmBase { state_machine: self.state_machine.spec_put_error().0, ..self }),
        }
    }

    /// Construction requires a non-empty name.
    pub fn new(
        name: String,
        id: String,
        action: Arc<ActionBase<Backend<A>>>,
        placeholders: PlaceholderMap,
        recover_action: Option<Arc<ActionBase<Backend<A>>>>,
        recover_placeholders: PlaceholderMap,
        error_action: Option<Arc<ActionBase<Backend<A>>>>,
        error_placeholders: PlaceholderMap,
        invert: bool,
        state_machine: StateMachine,
        data_sink: S,
        log_id: String,
    ) -> (r: Result<AlarmBase<S, A>, Error>)
        ensures
            name@.len() == 0 ==> (r matches Err(e) && e.0@ == "'name' cannot be empty."@),
            name@.len() > 0 ==> r == Ok::<AlarmBase<S, A>, Error>(
                (AlarmBase {
                    name,
                    id,
                    action,
                    placeholders,
                    recover_action,
                    recover_placeholders,
                    error_action,
                    error_placeholders,
                    invert,
                    state_machine,
                    data_sink,
                    log_id,
                }),
            ),
    {
        if name.as_str().is_empty() {
            Err(Error(String::from_str("'name' cannot be empty.")))
        } else {
            Ok(
                AlarmBase {
                    name,
                    id,
                    action,
                    placeholders,
                    recover_action,
                    recover_placeholders,
                    error_action,
                    error_placeholders,
                    invert,
                    state_machine,
                    data_sink,
                    log_id,
                },
            )
        }
    }

    /// Injects this alarm's identity and merges one of its static placeholder
    /// maps under the caller-supplied values.
    fn dispatch_placeholders(&self, placeholders: PlaceholderMap, statics: &PlaceholderMap) -> (r:
        PlaceholderMap)
        ensures
            r@ == statics@.union_prefer_right(
                placeholders@.insert("alarm_name"@, self.name@).insert("alarm_id"@, self.id@),
            ),
    {
        let mut ph = placeholders;
        ph.insert(String::from_str("alarm_name"), self.name.clone());
        ph.insert(String::from_str("alarm_id"), self.id.clone());
        merge_placeholders(&mut ph, statics);
        ph
    }

    /// Evaluates the item, feeds the state machine and dispatches the decided
    /// action: the primary action on `Trigger` and `RepeatTrigger` (merged
    /// with the alarm's primary placeholders), the recover action, if bound,
    /// on `Recover`. A dispatch failure is returned for the caller to log; it
    /// is never escalated.
    pub fn put_data(&mut self, item: &S::Item, placeholders: PlaceholderMap) -> (r: Result<
        (),
        Error,
    >)
        ensures
            *final(self) == (AlarmBase {
                state_machine: old(self).spec_data_step(*item).0,
                ..*old(self)
            }),
            ({
                let d = old(self).spec_data_step(*item).1;
                &&& (d == Decision::NoAction ==> r is Ok)
                &&& ((d == Decision::Trigger || d == Decision::RepeatTrigger)
                    && old(self).action.action.completes_ok() ==> r is Ok)
                &&& (d == Decision::Recover && old(self).recover_action is None ==> r is Ok)
                &&& (d == Decision::Recover && (old(self).recover_action matches Some(a)
                    && a.action.completes_ok()) ==> r is Ok)
            }),
    {
        let bad_raw = self.data_sink.evaluate(item);
        let bad = if self.invert {
            !bad_raw
        } else {
            bad_raw
        };
        let mut decision = self.state_machine.put(bad);
        if decision == Decision::RecoverFromError {
            decision = self.state_machine.put(bad);
        }
        match decision {
            Decision::Trigger | Decision::RepeatTrigger => {
                let ph = self.dispatch_placeholders(placeholders, &self.placeholders);
                self.action.trigger(ph)
            },
            Decision::Recover => {
                match &self.recover_action {
                    Some(a) => {
                        let ph = self.dispatch_placeholders(
                            placeholders,
                            &self.recover_placeholders,
                        );
                        a.trigger(ph)
                    },
                    None => Ok(()),
                }
            },
            _ => Ok(()),
        }
    }

    /// Feeds a hard-error signal and dispatches the error action, if bound,
    /// on `TriggerError` and `RepeatTriggerError` (merged with the alarm's
    /// error placeholders). The caller injects the error text under
    /// `check_error` before this call.
    pub fn put_error(&mut self, error: &Error, placeholders: PlaceholderMap) -> (r: Result<
        (),
        Error,
    >)
        ensures
            *final(self) == (AlarmBase {
                state_machine: old(self).state_machine.spec_put_error().0,
                ..*old(self)
            }),
            ({
                let d = old(self).state_machine.spec_put_error().1;
                &&& (d == Decision::NoAction ==> r is Ok)
                &&& ((d == Decision::TriggerError || d == Decision::RepeatTriggerError) && old(
                    self,
                ).error_action is None ==> r is Ok)
                &&& ((d == Decision::TriggerError || d == Decision::RepeatTriggerError) && (old(
                    self,
                ).error_action matches Some(a) && a.action.completes_ok()) ==> r is Ok)
            }),
    {
        let _ = error;
        let decision = self.state_machine.put_error();
        match decision {
            Decision::TriggerError | Decision::RepeatTriggerError => {
                match &self.error_action {
                    Some(a) => {
                        let ph = self.dispatch_placeholders(
                            placeholders,
                            &self.error_placeholders,
                        );
                        a.trigger(ph)
                    },
                    None => Ok(()),
                }
            },
            _ => Ok(()),
        }
    }

    /// The precomputed descriptive string used in all log lines for this
    /// alarm instance.
    pub fn log_id(&self) -> (r: &String)
        ensures
            r == &self.log_id,
    {
        &self.log_id
    }
}

} // verus!
