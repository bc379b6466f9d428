use minmon::state_machine::{Decision, StateMachine};

fn machine(cycles: u32, repeat: u32, recover: u32, error_repeat: u32) -> StateMachine {
    StateMachine::new(cycles, repeat, recover, error_repeat, String::from("Alarm 'A', id 'i' from check 'C'"))
        .unwrap()
}

#[test]
fn test_zero_cycles_rejected() {
    let r = StateMachine::new(0, 0, 0, 0, String::from("log"));
    assert_eq!(r.err().unwrap().0, "'cycles' cannot be 0.");
}

#[test]
fn test_first_trigger_needs_exact_cycles() {
    let mut sm = machine(3, 0, 1, 0);
    assert_eq!(sm.put(true), Decision::NoAction);
    assert_eq!(sm.put(true), Decision::NoAction);
    assert_eq!(sm.put(true), Decision::Trigger);
    assert!(sm.alarmed);
}

#[test]
fn test_good_evaluation_resets_streak() {
    let mut sm = machine(3, 0, 1, 0);
    assert_eq!(sm.put(true), Decision::NoAction);
    assert_eq!(sm.put(true), Decision::NoAction);
    assert_eq!(sm.put(false), Decision::NoAction);
    assert_eq!(sm.put(true), Decision::NoAction);
    assert_eq!(sm.put(true), Decision::NoAction);
    assert!(!sm.alarmed);
    assert_eq!(sm.put(true), Decision::Trigger);
}

#[test]
fn test_repeat_trigger_after_repeat_cycles() {
    let mut sm = machine(1, 2, 1, 0);
    assert_eq!(sm.put(true), Decision::Trigger);
    assert_eq!(sm.put(true), Decision::NoAction);
    assert_eq!(sm.put(true), Decision::NoAction);
    assert_eq!(sm.put(true), Decision::RepeatTrigger);
    assert_eq!(sm.put(true), Decision::NoAction);
}

#[test]
fn test_never_repeat_when_repeat_cycles_zero() {
    let mut sm = machine(1, 0, 1, 0);
    assert_eq!(sm.put(true), Decision::Trigger);
    for _ in 0..10 {
        assert_eq!(sm.put(true), Decision::NoAction);
    }
    assert!(sm.alarmed);
}

#[test]
fn test_recover_after_recover_cycles() {
    let mut sm = machine(1, 0, 2, 0);
    assert_eq!(sm.put(true), Decision::Trigger);
    assert_eq!(sm.put(false), Decision::NoAction);
    assert_eq!(sm.put(true), Decision::NoAction);
    assert_eq!(sm.put(false), Decision::NoAction);
    assert_eq!(sm.put(false), Decision::Recover);
    assert!(!sm.alarmed);
}

#[test]
fn test_recover_immediately_when_zero() {
    let mut sm = machine(1, 0, 0, 0);
    assert_eq!(sm.put(true), Decision::Trigger);
    assert_eq!(sm.put(false), Decision::Recover);
    assert!(!sm.alarmed);
}

#[test]
fn test_error_tracking_is_independent() {
    let mut sm = machine(3, 0, 1, 0);
    assert_eq!(sm.put(true), Decision::NoAction);
    assert_eq!(sm.put(true), Decision::NoAction);
    assert_eq!(sm.put_error(), Decision::TriggerError);
    assert!(sm.erroring);
    assert_eq!(sm.put(true), Decision::RecoverFromError);
    assert!(!sm.erroring);
    assert_eq!(sm.bad_count, 2);
    assert_eq!(sm.put(true), Decision::Trigger);
}

#[test]
fn test_error_repeat_throttling() {
    let mut sm = machine(1, 0, 1, 2);
    assert_eq!(sm.put_error(), Decision::TriggerError);
    assert_eq!(sm.put_error(), Decision::NoAction);
    assert_eq!(sm.put_error(), Decision::NoAction);
    assert_eq!(sm.put_error(), Decision::RepeatTriggerError);
    assert_eq!(sm.put_error(), Decision::NoAction);
}

#[test]
fn test_error_never_repeats_when_zero() {
    let mut sm = machine(1, 0, 1, 0);
    assert_eq!(sm.put_error(), Decision::TriggerError);
    for _ in 0..5 {
        assert_eq!(sm.put_error(), Decision::NoAction);
    }
}

#[test]
fn test_scenario_trigger_repeat_recover() {
    let mut sm = machine(2, 1, 1, 0);
    let evals = [true, true, true, true, false];
    let expected = [
        Decision::NoAction,
        Decision::Trigger,
        Decision::NoAction,
        Decision::RepeatTrigger,
        Decision::Recover,
    ];
    for (e, want) in evals.iter().zip(expected.iter()) {
        assert_eq!(sm.put(*e), *want);
    }
    assert!(!sm.alarmed);
}
