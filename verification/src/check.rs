use vstd::prelude::*;
use vstd::string::StringExecFns;
use crate::action::{Action, ActionMap};
use crate::alarm::{AlarmBase, DataSink};
use crate::config;
use crate::error::Error;
use crate::placeholder::PlaceholderMap;
use crate::state_machine::StateMachine;

verus! {

/// A periodically triggered check, as seen by the scheduler.
pub trait Check: Sized {
    /// What one tick may do to this check, whatever its collaborators
    /// return.
    spec fn spec_tick(self, post: Self) -> bool;

    /// Tick interval in seconds.
    spec fn spec_interval(&self) -> u64;

    /// The check's name.
    spec fn spec_name(&self) -> Seq<char>;

    /// One tick: fetch fresh samples and feed every alarm. Dispatch failures
    /// are handed back, each tagged with the failing alarm's log id, for the
    /// caller to log; they never abort the tick.
    fn trigger(&mut self) -> (failures: Vec<(String, Error)>)
        ensures
            old(self).spec_tick(*final(self)),
    ;

    /// Tick interval in seconds.
    fn interval(&self) -> (r: u64)
        ensures
            r == self.spec_interval(),
    ;

    /// The check's name.
    fn name(&self) -> (r: &str)
        ensures
            r@ == self.spec_name(),
    ;
}

/// Data acquisition capability: produces, for a fixed ordered list of entity
/// ids, one result per id each time it is sampled.
pub trait DataSource: Sized {
    type Item;

    /// The fixed, ordered entity ids this source reports.
    open spec fn spec_ids(&self) -> Seq<String> {
        vstd::pervasive::arbitrary()
    }

    /// Fetches one result per entity id, positionally aligned with `ids`.
    fn get_data(&self) -> (r: Result<Vec<Result<Self::Item, Error>>, Error>)
        ensures
            r matches Ok(v) ==> v@.len() == self.spec_ids().len(),
    ;

    /// Display string for one sampled item.
    fn format_data(data: &Self::Item) -> String;

    /// The fixed, ordered entity ids; stable across ticks.
    fn ids(&self) -> (r: &Vec<String>)
        ensures
            r@ == self.spec_ids(),
    ;

    /// Builds the source for one check configuration.
    fn from_config(check_config: &config::Check) -> Result<Self, Error>;
}

/// One cloned error per entity, so that a check-level fetch failure still
/// advances every alarm's cycle counters instead of starving them.
pub fn replicate_error<T>(error: &Error, n: usize) -> (r: Vec<Result<T, Error>>)
    ensures
        r@.len() == n as int,
        forall|i: int| 0 <= i < n as int ==> (#[trigger] r@[i] matches Err(e) && e == *error),
{
    let mut v: Vec<Result<T, Error>> = Vec::new();
    let mut i: usize = 0;
    while i < n
        invariant
            0 <= i <= n,
            v@.len() == i as int,
            forall|j: int| 0 <= j < i as int ==> (#[trigger] v@[j] matches Err(e) && e == *error),
        decreases n - i,
    {
        v.push(Err(error.clone()));
        i += 1;
    }
    v
}

/// Owns one data source and, per entity the source reports, one ordered group
/// of alarms; entities and alarm groups are aligned by position.
pub struct CheckBase<D: DataSource, S: DataSink<Item = D::Item>, A: Action> {
    pub interval: u32,
    pub name: String,
    pub placeholders: PlaceholderMap,
    pub data_source: D,
    pub alarms: Vec<Vec<AlarmBase<S, A>>>,
}

impl<D: DataSource, S: DataSink<Item = D::Item>, A: Action> CheckBase<D, S, A> {
    /// Construction requires a positive interval and a non-empty name.
    pub fn new(
        interval: u32,
        name: String,
        placeholders: PlaceholderMap,
        data_source: D,
        alarms: Vec<Vec<AlarmBase<S, A>>>,
    ) -> (r: Result<CheckBase<D, S, A>, Error>)
        ensures
            interval == 0 ==> (r matches Err(e) && e.0@ == "'interval' cannot be 0."@),
            interval > 0 && name@.len() == 0 ==> (r matches Err(e) && e.0@
                == "'name' cannot be empty."@),
            interval > 0 && name@.len() > 0 ==> r == Ok::<CheckBase<D, S, A>, Error>(
                (CheckBase { interval, name, placeholders, data_source, alarms }),
            ),
    {
        if interval == 0 {
            Err(Error(String::from_str("'interval' cannot be 0.")))
        } else if name.as_str().is_empty() {
            Err(Error(String::from_str("'name' cannot be empty.")))
        } else {
            Ok(CheckBase { interval, name, placeholders, data_source, alarms })
        }
    }

    /// Whether `post` is `self` after one tick over the given per-entity
    /// results, applied positionally: every alarm of group `i` advances by
    /// exactly the `i`th result, groups beyond the results are unchanged, and
    /// everything else is kept.
    pub open spec fn spec_tick_relation(
        self,
        post: CheckBase<D, S, A>,
        results: Seq<Result<D::Item, Error>>,
    ) -> bool {
        &&& post.interval == self.interval
        &&& post.name == self.name
        &&& post.placeholders == self.placeholders
        &&& post.data_source == self.data_source
        &&& post.alarms@.len() == self.alarms@.len()
        &&& forall|i: int|
            0 <= i < self.alarms@.len() ==> #[trigger] post.alarms@[i]@.len()
                == self.alarms@[i]@.len()
        &&& forall|i: int, j: int|
            0 <= i < self.alarms@.len() && i < results.len() && 0 <= j < self.alarms@[i]@.len()
                ==> #[trigger] post.alarms@[i]@[j] == self.alarms@[i]@[j].spec_after_input(
                results[i],
            )
        &&& forall|i: int|
            results.len() <= i < self.alarms@.len() ==> #[trigger] post.alarms@[i]
                == self.alarms@[i]
    }

    /// Whether `tag` is the log id of one of this check's alarms.
    pub open spec fn spec_has_alarm_log_id(self, tag: String) -> bool {
        exists|i: int, j: int|
            0 <= i < self.alarms@.len() && 0 <= j < self.alarms@[i]@.len() && (#[trigger] self.alarms@[i]@[j]).log_id == tag
    }

    /// Feeds one tick's per-entity results to the alarm groups, by position:
    /// an available sample is evaluated by each alarm of its group, an
    /// unavailable one is fed as a hard error with the error text injected
    /// under `check_error`. Each alarm receives its own copy of the base
    /// placeholders (the check's statics plus `check_name`; a process-wide
    /// global layer, if the embedder keeps one, is merged under the check's
    /// `placeholders` before construction). A failing alarm never blocks its
    /// siblings: each dispatch failure is collected, tagged with that alarm's
    /// log id, and handed back for the caller to log.
    pub fn process_results(&mut self, results: Vec<Result<D::Item, Error>>) -> (failures: Vec<
        (String, Error),
    >)
        ensures
            old(self).spec_tick_relation(*final(self), results@),
            forall|k: int|
                0 <= k < failures@.len() ==> old(self).spec_has_alarm_log_id(
                    (#[trigger] failures@[k]).0,
                ),
    {
        let mut failures: Vec<(String, Error)> = Vec::new();
        let mut base = self.placeholders.clone();
        base.insert(String::from_str("check_name"), self.name.clone());
        let n = if results.len() < self.alarms.len() {
            results.len()
        } else {
            self.alarms.len()
        };
        let mut i: usize = 0;
        while i < n
            invariant
                0 <= i <= n,
                n <= results@.len(),
                n <= self.alarms@.len(),
                self.interval == old(self).interval,
                self.name == old(self).name,
                self.placeholders == old(self).placeholders,
                self.data_source == old(self).data_source,
                self.alarms@.len() == old(self).alarms@.len(),
                forall|k: int|
                    0 <= k < old(self).alarms@.len() ==> #[trigger] self.alarms@[k]@.len() == old(
                        self,
                    ).alarms@[k]@.len(),
                forall|k: int, j: int|
                    0 <= k < i as int && 0 <= j < old(self).alarms@[k]@.len()
                        ==> #[trigger] self.alarms@[k]@[j] == old(
                        self,
                    ).alarms@[k]@[j].spec_after_input(results@[k]),
                forall|k: int|
                    i as int <= k < old(self).alarms@.len() ==> #[trigger] self.alarms@[k] == old(
                        self,
                    ).alarms@[k],
                forall|k: int|
                    0 <= k < failures@.len() ==> old(self).spec_has_alarm_log_id(
                        (#[trigger] failures@[k]).0,
                    ),
            decreases n - i,
        {
            let ghost pre = self.alarms@;
            let mut group: Vec<AlarmBase<S, A>> = self.alarms.remove(i);
            let ghost g0 = group@;
            let m = group.len();
            let mut j: usize = 0;
            while j < m
                invariant
                    0 <= j <= m,
                    m == g0.len(),
                    group@.len() == g0.len(),
                    i < results@.len(),
                    (i as int) < old(self).alarms@.len(),
                    g0 == old(self).alarms@[i as int]@,
                    forall|l: int|
                        0 <= l < j as int ==> #[trigger] group@[l] == g0[l].spec_after_input(
                            results@[i as int],
                        ),
                    forall|l: int| j as int <= l < m ==> #[trigger] group@[l] == g0[l],
                    forall|k: int|
                        0 <= k < failures@.len() ==> old(self).spec_has_alarm_log_id(
                            (#[trigger] failures@[k]).0,
                        ),
                decreases m - j,
            {
                let ghost gpre = group@;
                let mut alarm = group.remove(j);
                let mut ph = base.clone();
                let r = match &results[i] {
                    Ok(data) => alarm.put_data(data, ph),
                    Err(e) => {
                        ph.insert(String::from_str("check_error"), e.0.clone());
                        alarm.put_error(e, ph)
                    },
                };
                match r {
                    Ok(_) => (),
                    Err(dispatch_error) => {
                        proof {
                            assert(alarm.log_id == old(self).alarms@[i as int]@[j as int].log_id);
                        }
                        failures.push((alarm.log_id().clone(), dispatch_error));
                        proof {
                            assert(old(self).spec_has_alarm_log_id(failures@.last().0));
                        }
                    },
                }
                group.insert(j, alarm);
                proof {
                    assert(group@ =~= gpre.update(j as int, alarm));
                }
                j += 1;
            }
            self.alarms.insert(i, group);
            proof {
                assert(self.alarms@ =~= pre.update(i as int, group));
            }
            i += 1;
        }
        failures
    }
}

impl<D: DataSource, S: DataSink<Item = D::Item>, A: Action> Check for CheckBase<D, S, A> {
    /// One coherent pass: some one sequence of per-entity results, one per
    /// entity the data source reports, applied positionally.
    open spec fn spec_tick(self, post: Self) -> bool {
        exists|results: Seq<Result<D::Item, Error>>|
            results.len() == self.data_source.spec_ids().len()
                && #[trigger] self.spec_tick_relation(post, results)
    }

    open spec fn spec_interval(&self) -> u64 {
        self.interval as u64
    }

    open spec fn spec_name(&self) -> Seq<char> {
        self.name@
    }

    /// Whether the fetch yields data or fails as a whole, the tick feeds one
    /// result per entity id, and every failure handed back is tagged with the
    /// log id of one of this check's alarms.
    fn trigger(&mut self) -> (failures: Vec<(String, Error)>)
        ensures
            forall|k: int|
                0 <= k < failures@.len() ==> old(self).spec_has_alarm_log_id(
                    (#[trigger] failures@[k]).0,
                ),
    {
        let fetched = self.data_source.get_data();
        let results = match fetched {
            Ok(v) => v,
            Err(e) => replicate_error(&e, self.data_source.ids().len()),
        };
        let ghost res = results@;
        let failures = self.process_results(results);
        proof {
            assert(old(self).spec_tick_relation(*self, res));
            assert(res.len() == old(self).data_source.spec_ids().len());
        }
        failures
    }

    fn interval(&self) -> (r: u64) {
        self.interval as u64
    }

    fn name(&self) -> (r: &str) {
        self.name.as_str()
    }
}

/// The enabled alarm configurations, in configuration order.
pub open spec fn enabled_configs(s: Seq<config::Alarm>) -> Seq<config::Alarm>
    decreases s.len(),
{
    if s.len() == 0 {
        Seq::empty()
    } else if s.last().disable {
        enabled_configs(s.drop_last())
    } else {
        enabled_configs(s.drop_last()).push(s.last())
    }
}

/// Whether one wired alarm instance faithfully reflects its configuration:
/// fresh state machine with the configured thresholds, the configured
/// placeholder maps and inversion flag, and the named actions resolved from
/// the registry.
pub open spec fn wired_alarm<S: DataSink, A: Action>(
    al: AlarmBase<S, A>,
    cfg: config::Alarm,
    actions: ActionMap<A>,
) -> bool {
    &&& al.name@ == cfg.name@
    &&& al.invert == cfg.invert
    &&& al.placeholders@ == cfg.placeholders@
    &&& al.recover_placeholders@ == cfg.recover_placeholders@
    &&& al.error_placeholders@ == cfg.error_placeholders@
    &&& cfg.cycles > 0
    &&& al.state_machine.cycles == cfg.cycles
    &&& al.state_machine.repeat_cycles == cfg.repeat_cycles
    &&& al.state_machine.recover_cycles == cfg.recover_cycles
    &&& al.state_machine.error_repeat_cycles == cfg.error_repeat_cycles
    &&& al.state_machine.bad_count == 0
    &&& al.state_machine.good_count == 0
    &&& al.state_machine.error_count == 0
    &&& !al.state_machine.alarmed
    &&& !al.state_machine.erroring
    &&& actions.spec_get(cfg.action@) == Some(al.action)
    &&& match cfg.recover_action {
        Some(nm) => al.recover_action is Some && actions.spec_get(nm@) == al.recover_action,
        None => al.recover_action is None,
    }
    &&& match cfg.error_action {
        Some(nm) => al.error_action is Some && actions.spec_get(nm@) == al.error_action,
        None => al.error_action is None,
    }
}

/// Builds a check from its configuration and the process-wide action
/// registry: one data source, and per entity id one group holding one alarm
/// per enabled alarm configuration. Construction either wires completely or
/// fails entirely.
pub fn factory<D: DataSource, S: DataSink<Item = D::Item>, A: Action>(
    check_config: &config::Check,
    actions: &ActionMap<A>,
) -> (r: Result<CheckBase<D, S, A>, Error>)
    ensures
        check_config.interval == 0 ==> r is Err,
        check_config.name@.len() == 0 ==> r is Err,
        r matches Ok(c) ==> {
            &&& c.interval == check_config.interval
            &&& c.name@ == check_config.name@
            &&& c.placeholders@ == check_config.placeholders@
            &&& c.alarms@.len() == c.data_source.spec_ids().len()
            &&& forall|i: int|
                0 <= i < c.alarms@.len() ==> #[trigger] c.alarms@[i]@.len() == enabled_configs(
                    check_config.alarms@,
                ).len()
            &&& forall|i: int, j: int|
                0 <= i < c.alarms@.len() && 0 <= j < c.alarms@[i]@.len()
                    ==> #[trigger] wired_alarm(
                    c.alarms@[i]@[j],
                    enabled_configs(check_config.alarms@)[j],
                    *actions,
                )
        },
{
    let data_source = match D::from_config(check_config) {
        Ok(d) => d,
        Err(e) => {
            return Err(e);
        },
    };
    let ids = data_source.ids();
    let n_ids = ids.len();
    let n_cfg = check_config.alarms.len();
    let mut all_alarms: Vec<Vec<AlarmBase<S, A>>> = Vec::new();
    let mut i: usize = 0;
    while i < n_ids
        invariant
            0 <= i <= n_ids,
            n_ids == ids@.len(),
            n_ids == data_source.spec_ids().len(),
            n_cfg == check_config.alarms@.len(),
            all_alarms@.len() == i as int,
            forall|k: int|
                0 <= k < i as int ==> #[trigger] all_alarms@[k]@.len() == enabled_configs(
                    check_config.alarms@,
                ).len(),
            forall|k: int, j: int|
                0 <= k < i as int && 0 <= j < all_alarms@[k]@.len() ==> #[trigger] wired_alarm(
                    all_alarms@[k]@[j],
                    enabled_configs(check_config.alarms@)[j],
                    *actions,
                ),
        decreases n_ids - i,
    {
        let mut group: Vec<AlarmBase<S, A>> = Vec::new();
        let mut k: usize = 0;
        while k < n_cfg
            invariant
                0 <= k <= n_cfg,
                n_cfg == check_config.alarms@.len(),
                n_ids == ids@.len(),
                i < n_ids,
                group@.len() == enabled_configs(check_config.alarms@.take(k as int)).len(),
                forall|j: int|
                    0 <= j < group@.len() ==> #[trigger] wired_alarm(
                        group@[j],
                        enabled_configs(check_config.alarms@.take(k as int))[j],
                        *actions,
                    ),
            decreases n_cfg - k,
        {
            let ghost prefix = check_config.alarms@.take(k as int);
            let ghost next = check_config.alarms@.take(k as int + 1);
            proof {
                assert(next.drop_last() =~= prefix);
                assert(next.last() == check_config.alarms@[k as int]);
            }
            let alarm_config = &check_config.alarms[k];
            if !alarm_config.disable {
                let mut log_id = String::from_str("Alarm '");
                log_id.append(alarm_config.name.as_str());
                log_id.append("', id '");
                log_id.append(ids[i].as_str());
                log_id.append("' from check '");
                log_id.append(check_config.name.as_str());
                log_id.append("'");
                let data_sink = match S::from_config(alarm_config) {
                    Ok(s) => s,
                    Err(e) => {
                        return Err(e);
                    },
                };
                let state_machine = match StateMachine::new(
                    alarm_config.cycles,
                    alarm_config.repeat_cycles,
                    alarm_config.recover_cycles,
                    alarm_config.error_repeat_cycles,
                    log_id.clone(),
                ) {
                    Ok(s) => s,
                    Err(e) => {
                        return Err(e);
                    },
                };
                let action = match crate::action::get_action(&alarm_config.action, actions) {
                    Ok(a) => a,
                    Err(e) => {
                        return Err(e);
                    },
                };
                let recover_action = match &alarm_config.recover_action {
                    Some(name) => {
                        match crate::action::get_action(name, actions) {
                            Ok(a) => Some(a),
                            Err(e) => {
                                return Err(e);
                            },
                        }
                    },
                    None => None,
                };
                let error_action = match &alarm_config.error_action {
                    Some(name) => {
                        match crate::action::get_action(name, actions) {
                            Ok(a) => Some(a),
                            Err(e) => {
                                return Err(e);
                            },
                        }
                    },
                    None => None,
                };
                let alarm = match AlarmBase::new(
                    alarm_config.name.clone(),
                    ids[i].clone(),
                    action,
                    alarm_config.placeholders.clone(),
                    recover_action,
                    alarm_config.recover_placeholders.clone(),
                    error_action,
                    alarm_config.error_placeholders.clone(),
                    alarm_config.invert,
                    state_machine,
                    data_sink,
                    log_id,
                ) {
                    Ok(a) => a,
                    Err(e) => {
                        return Err(e);
                    },
                };
                group.push(alarm);
            }
            k += 1;
        }
        proof {
            assert(check_config.alarms@.take(n_cfg as int) =~= check_config.alarms@);
        }
        all_alarms.push(group);
        i += 1;
    }
    CheckBase::new(
        check_config.interval,
        check_config.name.clone(),
        check_config.placeholders.clone(),
        data_source,
        all_alarms,
    )
}

/// The context prefix put in front of every wiring error of one check.
pub open spec fn check_error_prefix(name: Seq<char>) -> Seq<char> {
    "Failed to create check '"@ + name + "' from config: "@
}

/// Builds a check from its configuration, wrapping any construction error
/// with the owning check's name for context.
pub fn from_check_config<D: DataSource, S: DataSink<Item = D::Item>, A: Action>(
    check_config: &config::Check,
    actions: &ActionMap<A>,
) -> (r: Result<CheckBase<D, S, A>, Error>)
    ensures
        check_config.interval == 0 ==> r is Err,
        check_config.name@.len() == 0 ==> r is Err,
        r matches Ok(c) ==> {
            &&& c.interval == check_config.interval
            &&& c.name@ == check_config.name@
            &&& c.placeholders@ == check_config.placeholders@
            &&& c.alarms@.len() == c.data_source.spec_ids().len()
            &&& forall|i: int|
                0 <= i < c.alarms@.len() ==> #[trigger] c.alarms@[i]@.len() == enabled_configs(
                    check_config.alarms@,
                ).len()
            &&& forall|i: int, j: int|
                0 <= i < c.alarms@.len() && 0 <= j < c.alarms@[i]@.len()
                    ==> #[trigger] wired_alarm(
                    c.alarms@[i]@[j],
                    enabled_configs(check_config.alarms@)[j],
                    *actions,
                )
        },
        r matches Err(e) ==> {
            &&& e.0@.len() >= check_error_prefix(check_config.name@).len()
            &&& e.0@.subrange(0, check_error_prefix(check_config.name@).len() as int)
                == check_error_prefix(check_config.name@)
        },
{
    match factory::<D, S, A>(check_config, actions) {
        Ok(c) => Ok(c),
        Err(e) => {
            let mut msg = String::from_str("Failed to create check '");
            msg.append(check_config.name.as_str());
            msg.append("' from config: ");
            msg.append(e.0.as_str());
            proof {
                assert(msg@.subrange(0, check_error_prefix(check_config.name@).len() as int)
                    =~= check_error_prefix(check_config.name@));
            }
            Err(Error(msg))
        },
    }
}

} // verus!
