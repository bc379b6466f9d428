use std::sync::{Arc, Mutex};

use minmon::action::{from_action_config, get_action, Action, ActionBase, ActionMap, Backend};
use minmon::config;
use minmon::error::Error;
use minmon::placeholder::PlaceholderMap;

#[derive(Clone)]
struct RecordingBackend {
    calls: Arc<Mutex<Vec<PlaceholderMap>>>,
    outcome: Option<Result<(), Error>>,
}

impl RecordingBackend {
    fn ok() -> Self {
        RecordingBackend { calls: Arc::new(Mutex::new(Vec::new())), outcome: Some(Ok(())) }
    }

    fn timing_out() -> Self {
        RecordingBackend { calls: Arc::new(Mutex::new(Vec::new())), outcome: None }
    }

    fn call_count(&self) -> usize {
        self.calls.lock().unwrap().len()
    }
}

impl Action for RecordingBackend {
    fn trigger(&self, _timeout: u64, placeholders: PlaceholderMap) -> Option<Result<(), Error>> {
        self.calls.lock().unwrap().push(placeholders);
        self.outcome.clone()
    }
}

fn map_of(pairs: &[(&str, &str)]) -> PlaceholderMap {
    let mut m = PlaceholderMap::new();
    for (k, v) in pairs {
        m.insert(String::from(*k), String::from(*v));
    }
    m
}

fn get(m: &PlaceholderMap, k: &str) -> Option<String> {
    m.get(&String::from(k))
}

#[test]
fn test_placeholders() {
    let backend = RecordingBackend::ok();
    let action = ActionBase::new(
        String::from("Name"),
        1,
        map_of(&[("Hello", "World")]),
        backend.clone(),
    )
    .unwrap();
    action.trigger(map_of(&[("Foo", "Bar")])).unwrap();
    let calls = backend.calls.lock().unwrap();
    assert_eq!(calls.len(), 1);
    assert_eq!(calls[0].len(), 3);
    assert_eq!(get(&calls[0], "action_name"), Some(String::from("Name")));
    assert_eq!(get(&calls[0], "Hello"), Some(String::from("World")));
    assert_eq!(get(&calls[0], "Foo"), Some(String::from("Bar")));
}

#[test]
fn test_placeholders_caller_values_win() {
    let backend = RecordingBackend::ok();
    let action = ActionBase::new(
        String::from("Name"),
        1,
        map_of(&[("Hello", "World")]),
        backend.clone(),
    )
    .unwrap();
    action
        .trigger(map_of(&[("Hello", "Caller"), ("action_name", "Caller")]))
        .unwrap();
    let calls = backend.calls.lock().unwrap();
    assert_eq!(calls[0].len(), 2);
    assert_eq!(get(&calls[0], "Hello"), Some(String::from("Caller")));
    assert_eq!(get(&calls[0], "action_name"), Some(String::from("Caller")));
}

#[test]
fn test_timeout() {
    let action = ActionBase::new(
        String::from("Name"),
        1,
        PlaceholderMap::new(),
        RecordingBackend::timing_out(),
    )
    .unwrap();
    assert!(matches!(action.trigger(PlaceholderMap::new()), Err(_)));
}

#[test]
fn test_timeout_error_message() {
    let action = ActionBase::new(
        String::from("Name"),
        7,
        PlaceholderMap::new(),
        RecordingBackend::timing_out(),
    )
    .unwrap();
    let err = action.trigger(PlaceholderMap::new()).err().unwrap();
    assert_eq!(err.0, "Action 'Name' timed out after 7 seconds.");
}

#[test]
fn test_timeout_error_message_multi_digit() {
    let action = ActionBase::new(
        String::from("Slow"),
        120,
        PlaceholderMap::new(),
        RecordingBackend::timing_out(),
    )
    .unwrap();
    let err = action.trigger(PlaceholderMap::new()).err().unwrap();
    assert_eq!(err.0, "Action 'Slow' timed out after 120 seconds.");
}

#[test]
fn test_completed_backend_result_unchanged() {
    let failing = RecordingBackend {
        calls: Arc::new(Mutex::new(Vec::new())),
        outcome: Some(Err(Error(String::from("backend failed")))),
    };
    let action =
        ActionBase::new(String::from("Name"), 1, PlaceholderMap::new(), failing).unwrap();
    let err = action.trigger(PlaceholderMap::new()).err().unwrap();
    assert_eq!(err.0, "backend failed");

    let action =
        ActionBase::new(String::from("Name"), 1, PlaceholderMap::new(), RecordingBackend::ok())
            .unwrap();
    assert!(action.trigger(PlaceholderMap::new()).is_ok());
}

#[test]
fn test_new_validation() {
    let r = ActionBase::new(String::new(), 1, PlaceholderMap::new(), RecordingBackend::ok());
    assert_eq!(r.err().unwrap().0, "'name' cannot be empty.");
    let r = ActionBase::new(String::from("Name"), 0, PlaceholderMap::new(), RecordingBackend::ok());
    assert_eq!(r.err().unwrap().0, "'timeout' cannot be 0.");
}

#[test]
fn test_disabled_action_never_calls_backend() {
    let backend = RecordingBackend::timing_out();
    let cfg = config::Action {
        name: String::from("Disabled"),
        disable: true,
        timeout: 1,
        placeholders: PlaceholderMap::new(),
    };
    let action = from_action_config(&cfg, backend.clone()).unwrap();
    assert!(action.trigger(PlaceholderMap::new()).is_ok());
    assert!(action.trigger(map_of(&[("Foo", "Bar")])).is_ok());
    assert_eq!(backend.call_count(), 0);
}

#[test]
fn test_from_action_config_enabled() {
    let backend = RecordingBackend::ok();
    let cfg = config::Action {
        name: String::from("Mail"),
        disable: false,
        timeout: 3,
        placeholders: map_of(&[("Hello", "World")]),
    };
    let action = from_action_config(&cfg, backend.clone()).unwrap();
    assert!(action.trigger(PlaceholderMap::new()).is_ok());
    assert_eq!(backend.call_count(), 1);
}

#[test]
fn test_from_action_config_validation() {
    let cfg = config::Action {
        name: String::new(),
        disable: false,
        timeout: 1,
        placeholders: PlaceholderMap::new(),
    };
    let r = from_action_config(&cfg, RecordingBackend::ok());
    assert_eq!(r.err().unwrap().0, "'name' cannot be empty.");
    let cfg = config::Action {
        name: String::from("Mail"),
        disable: false,
        timeout: 0,
        placeholders: PlaceholderMap::new(),
    };
    let r = from_action_config(&cfg, RecordingBackend::ok());
    assert_eq!(r.err().unwrap().0, "'timeout' cannot be 0.");
}

fn registry(backend: &RecordingBackend) -> ActionMap<RecordingBackend> {
    let mut actions = ActionMap::new();
    let cfg = config::Action {
        name: String::from("Primary"),
        disable: false,
        timeout: 1,
        placeholders: PlaceholderMap::new(),
    };
    actions.add(String::from("Primary"), from_action_config(&cfg, backend.clone()).unwrap());
    actions
}

#[test]
fn test_get_action_found() {
    let backend = RecordingBackend::ok();
    let actions = registry(&backend);
    let a = get_action(&String::from("Primary"), &actions).unwrap();
    assert!(a.trigger(PlaceholderMap::new()).is_ok());
    assert_eq!(backend.call_count(), 1);
}

#[test]
fn test_get_action_empty_name() {
    let actions = registry(&RecordingBackend::ok());
    let r = get_action(&String::new(), &actions);
    assert_eq!(r.err().unwrap().0, "'name' cannot be empty.");
}

#[test]
fn test_get_action_not_found() {
    let actions = registry(&RecordingBackend::ok());
    let r = get_action(&String::from("Missing"), &actions);
    assert_eq!(r.err().unwrap().0, "Action 'Missing' not found.");
}

#[test]
fn test_backend_enum_dispatch() {
    let backend = RecordingBackend::ok();
    let enabled = Backend::Enabled(backend.clone());
    assert!(matches!(enabled.trigger(1, PlaceholderMap::new()), Some(Ok(()))));
    assert_eq!(backend.call_count(), 1);
}
