use std::sync::{Arc, Mutex};

use minmon::action::{from_action_config, Action, ActionMap};
use minmon::alarm::DataSink;
use minmon::check::{from_check_config, Check, CheckBase, DataSource};
use minmon::config;
use minmon::error::Error;
use minmon::placeholder::PlaceholderMap;

#[derive(Clone)]
struct RecordingBackend {
    calls: Arc<Mutex<Vec<PlaceholderMap>>>,
    outcome: Option<Result<(), Error>>,
}

impl RecordingBackend {
    fn new() -> Self {
        RecordingBackend { calls: Arc::new(Mutex::new(Vec::new())), outcome: Some(Ok(())) }
    }

    fn failing() -> Self {
        RecordingBackend {
            calls: Arc::new(Mutex::new(Vec::new())),
            outcome: Some(Err(Error(String::from("dispatch failed")))),
        }
    }

    fn call_count(&self) -> usize {
        self.calls.lock().unwrap().len()
    }
}

impl Action for RecordingBackend {
    fn trigger(&self, _timeout: u64, placeholders: PlaceholderMap) -> Option<Result<(), Error>> {
        self.calls.lock().unwrap().push(placeholders);
        self.outcome.clone()
    }
}

/// Reports an item as bad when it exceeds 50.
struct LevelSink {
    limit: u64,
}

impl DataSink for LevelSink {
    type Item = u64;

    fn evaluate(&self, item: &u64) -> bool {
        *item > self.limit
    }

    fn from_config(_alarm_config: &config::Alarm) -> Result<Self, Error> {
        Ok(LevelSink { limit: 50 })
    }
}

/// Three entities whose fetch always fails as a whole.
struct FailingSource {
    ids: Vec<String>,
}

impl DataSource for FailingSource {
    type Item = u64;

    fn get_data(&self) -> Result<Vec<Result<u64, Error>>, Error> {
        Err(Error(String::from("no data")))
    }

    fn format_data(data: &u64) -> String {
        format!("{}", data)
    }

    fn ids(&self) -> &Vec<String> {
        &self.ids
    }

    fn from_config(_check_config: &config::Check) -> Result<Self, Error> {
        Ok(FailingSource {
            ids: vec![String::from("id1"), String::from("id2"), String::from("id3")],
        })
    }
}

/// One entity; each fetch pops the next scripted value.
struct ScriptedSource {
    ids: Vec<String>,
    script: Mutex<Vec<u64>>,
}

impl DataSource for ScriptedSource {
    type Item = u64;

    fn get_data(&self) -> Result<Vec<Result<u64, Error>>, Error> {
        let mut script = self.script.lock().unwrap();
        let value = script.remove(0);
        Ok(vec![Ok(value)])
    }

    fn format_data(data: &u64) -> String {
        format!("{}", data)
    }

    fn ids(&self) -> &Vec<String> {
        &self.ids
    }

    fn from_config(_check_config: &config::Check) -> Result<Self, Error> {
        Ok(ScriptedSource {
            ids: vec![String::from("id1")],
            script: Mutex::new(vec![100, 100, 100, 100, 0]),
        })
    }
}

fn action_config(name: &str) -> config::Action {
    config::Action {
        name: String::from(name),
        disable: false,
        timeout: 1,
        placeholders: PlaceholderMap::new(),
    }
}

fn alarm_config(name: &str, action: &str) -> config::Alarm {
    config::Alarm {
        name: String::from(name),
        disable: false,
        cycles: 1,
        repeat_cycles: 0,
        recover_cycles: 1,
        error_repeat_cycles: 0,
        invert: false,
        action: String::from(action),
        recover_action: None,
        error_action: None,
        placeholders: PlaceholderMap::new(),
        recover_placeholders: PlaceholderMap::new(),
        error_placeholders: PlaceholderMap::new(),
    }
}

fn check_config(name: &str, alarms: Vec<config::Alarm>) -> config::Check {
    config::Check {
        interval: 5,
        name: String::from(name),
        placeholders: PlaceholderMap::new(),
        alarms,
    }
}

fn registry(backend: &RecordingBackend, names: &[&str]) -> ActionMap<RecordingBackend> {
    let mut actions = ActionMap::new();
    for name in names {
        actions.add(
            String::from(*name),
            from_action_config(&action_config(name), backend.clone()).unwrap(),
        );
    }
    actions
}

#[test]
fn test_fetch_failure_reaches_every_entity() {
    let primary = RecordingBackend::new();
    let errors = RecordingBackend::new();
    let mut actions = registry(&primary, &["Primary"]);
    actions.add(
        String::from("ErrAct"),
        from_action_config(&action_config("ErrAct"), errors.clone()).unwrap(),
    );
    let mut alarm = alarm_config("Alarm", "Primary");
    alarm.error_action = Some(String::from("ErrAct"));
    let cfg = check_config("Check", vec![alarm]);
    let mut check =
        from_check_config::<FailingSource, LevelSink, RecordingBackend>(&cfg, &actions).unwrap();
    check.trigger();
    assert_eq!(primary.call_count(), 0);
    let calls = errors.calls.lock().unwrap();
    assert_eq!(calls.len(), 3);
    let expected_ids = ["id1", "id2", "id3"];
    for (call, id) in calls.iter().zip(expected_ids.iter()) {
        assert_eq!(call.get(&String::from("check_error")), Some(String::from("no data")));
        assert_eq!(call.get(&String::from("alarm_id")), Some(String::from(*id)));
        assert_eq!(call.get(&String::from("check_name")), Some(String::from("Check")));
        assert_eq!(call.get(&String::from("alarm_name")), Some(String::from("Alarm")));
        assert_eq!(call.get(&String::from("action_name")), Some(String::from("ErrAct")));
    }
}

#[test]
fn test_scenario_through_check() {
    let primary = RecordingBackend::new();
    let recover = RecordingBackend::new();
    let mut actions = registry(&primary, &["Primary"]);
    actions.add(
        String::from("RecAct"),
        from_action_config(&action_config("RecAct"), recover.clone()).unwrap(),
    );
    let mut alarm = alarm_config("Alarm", "Primary");
    alarm.cycles = 2;
    alarm.repeat_cycles = 1;
    alarm.recover_cycles = 1;
    alarm.recover_action = Some(String::from("RecAct"));
    let cfg = check_config("Check", vec![alarm]);
    let mut check =
        from_check_config::<ScriptedSource, LevelSink, RecordingBackend>(&cfg, &actions).unwrap();
    let expected_primary = [0, 1, 1, 2, 2];
    let expected_recover = [0, 0, 0, 0, 1];
    for tick in 0..5 {
        check.trigger();
        assert_eq!(primary.call_count(), expected_primary[tick]);
        assert_eq!(recover.call_count(), expected_recover[tick]);
    }
    assert!(!check.alarms[0][0].state_machine.alarmed);
}

#[test]
fn test_dispatch_failures_are_reported() {
    let failing = RecordingBackend::failing();
    let actions = registry(&failing, &["Primary"]);
    let cfg = check_config("Check", vec![alarm_config("Alarm", "Primary")]);
    let mut check =
        from_check_config::<ScriptedSource, LevelSink, RecordingBackend>(&cfg, &actions).unwrap();
    let failures = check.trigger();
    assert_eq!(failures.len(), 1);
    assert_eq!(failures[0].0, "Alarm 'Alarm', id 'id1' from check 'Check'");
    assert_eq!((failures[0].1).0, "dispatch failed");
}

#[test]
fn test_successful_tick_reports_no_failures() {
    let primary = RecordingBackend::new();
    let actions = registry(&primary, &["Primary"]);
    let cfg = check_config("Check", vec![alarm_config("Alarm", "Primary")]);
    let mut check =
        from_check_config::<ScriptedSource, LevelSink, RecordingBackend>(&cfg, &actions).unwrap();
    let failures = check.trigger();
    assert_eq!(primary.call_count(), 1);
    assert!(failures.is_empty());
}

#[test]
fn test_disabled_alarm_is_skipped() {
    let backend = RecordingBackend::new();
    let actions = registry(&backend, &["Primary"]);
    let enabled = alarm_config("Enabled", "Primary");
    let mut disabled = alarm_config("Disabled", "Primary");
    disabled.disable = true;
    let cfg = check_config("Check", vec![disabled, enabled]);
    let check =
        from_check_config::<FailingSource, LevelSink, RecordingBackend>(&cfg, &actions).unwrap();
    assert_eq!(check.alarms.len(), 3);
    for group in check.alarms.iter() {
        assert_eq!(group.len(), 1);
        assert_eq!(group[0].name, "Enabled");
    }
}

#[test]
fn test_missing_action_fails_wiring() {
    let actions = registry(&RecordingBackend::new(), &["Primary"]);
    let cfg = check_config("Check", vec![alarm_config("Alarm", "Missing")]);
    let r = from_check_config::<FailingSource, LevelSink, RecordingBackend>(&cfg, &actions);
    assert_eq!(
        r.err().unwrap().0,
        "Failed to create check 'Check' from config: Action 'Missing' not found."
    );
}

#[test]
fn test_zero_cycles_fails_wiring() {
    let actions = registry(&RecordingBackend::new(), &["Primary"]);
    let mut alarm = alarm_config("Alarm", "Primary");
    alarm.cycles = 0;
    let cfg = check_config("Check", vec![alarm]);
    let r = from_check_config::<FailingSource, LevelSink, RecordingBackend>(&cfg, &actions);
    assert_eq!(
        r.err().unwrap().0,
        "Failed to create check 'Check' from config: 'cycles' cannot be 0."
    );
}

#[test]
fn test_zero_interval_fails_wiring() {
    let actions = registry(&RecordingBackend::new(), &["Primary"]);
    let mut cfg = check_config("Check", vec![alarm_config("Alarm", "Primary")]);
    cfg.interval = 0;
    let r = from_check_config::<FailingSource, LevelSink, RecordingBackend>(&cfg, &actions);
    assert_eq!(
        r.err().unwrap().0,
        "Failed to create check 'Check' from config: 'interval' cannot be 0."
    );
}

#[test]
fn test_interval_and_name() {
    let actions = registry(&RecordingBackend::new(), &["Primary"]);
    let cfg = check_config("Check", vec![alarm_config("Alarm", "Primary")]);
    let check =
        from_check_config::<FailingSource, LevelSink, RecordingBackend>(&cfg, &actions).unwrap();
    assert_eq!(check.interval(), 5);
    assert_eq!(check.name(), "Check");
}

#[test]
fn test_checkbase_new_validation() {
    let r = CheckBase::<FailingSource, LevelSink, RecordingBackend>::new(
        0,
        String::from("Check"),
        PlaceholderMap::new(),
        FailingSource { ids: Vec::new() },
        Vec::new(),
    );
    assert_eq!(r.err().unwrap().0, "'interval' cannot be 0.");
    let r = CheckBase::<FailingSource, LevelSink, RecordingBackend>::new(
        1,
        String::new(),
        PlaceholderMap::new(),
        FailingSource { ids: Vec::new() },
        Vec::new(),
    );
    assert_eq!(r.err().unwrap().0, "'name' cannot be empty.");
}

#[test]
fn test_inverted_alarm() {
    let primary = RecordingBackend::new();
    let actions = registry(&primary, &["Primary"]);
    let mut alarm = alarm_config("Alarm", "Primary");
    alarm.invert = true;
    let cfg = check_config("Check", vec![alarm]);
    let mut check =
        from_check_config::<ScriptedSource, LevelSink, RecordingBackend>(&cfg, &actions).unwrap();
    for _ in 0..4 {
        check.trigger();
    }
    assert_eq!(primary.call_count(), 0);
    check.trigger();
    assert_eq!(primary.call_count(), 1);
}
