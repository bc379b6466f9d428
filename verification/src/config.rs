use vstd::prelude::*;
use crate::placeholder::PlaceholderMap;

verus! {

/// Configuration of one action: a name, whether it is disabled, the dispatch
/// timeout in seconds and the static placeholders merged into every trigger.
pub struct Action {
    pub name: String,
    pub disable: bool,
    pub timeout: u32,
    pub placeholders: PlaceholderMap,
}

/// Configuration of one alarm: the four cycle thresholds, the inversion flag,
/// the names of the bound actions and the placeholder maps merged into the
/// respective triggers.
pub struct Alarm {
    pub name: String,
    pub disable: bool,
    pub cycles: u32,
    pub repeat_cycles: u32,
    pub recover_cycles: u32,
    pub error_repeat_cycles: u32,
    pub invert: bool,
    pub action: String,
    pub recover_action: Option<String>,
    pub error_action: Option<String>,
    pub placeholders: PlaceholderMap,
    pub recover_placeholders: PlaceholderMap,
    pub error_placeholders: PlaceholderMap,
}

/// Configuration of one check: the tick interval in seconds, a name, static
/// placeholders and the alarms instantiated for every entity the data source
/// reports.
pub struct Check {
    pub interval: u32,
    pub name: String,
    pub placeholders: PlaceholderMap,
    pub alarms: Vec<Alarm>,
}

} // verus!
