use vstd::prelude::*;
use vstd::string::StringExecFns;
use std::sync::Arc;
use crate::config;
use crate::error::{decimal_string, spec_decimal, Error};
use crate::placeholder::{merge_placeholders, PlaceholderMap};

verus! {

/// Backend capability consumed by `ActionBase`: one attempt to perform the
/// side effect, already raced against the caller's configured timeout by the
/// runtime that hosts the backend. `None` means the backend did not complete
/// within `timeout` seconds and was abandoned; `Some` carries the backend's
/// own result.
pub trait Action {
    /// Whether every attempt of this backend completes in time and succeeds;
    /// unless an implementation says otherwise, nothing is promised.
    open spec fn completes_ok(&self) -> bool {
        false
    }

    /// Performs the side effect described by the resolved placeholders,
    /// bounded by `timeout` seconds.
    fn trigger(&self, timeout: u64, placeholders: PlaceholderMap) -> (r: Option<
        Result<(), Error>,
    >)
        ensures
            self.completes_ok() ==> r == Some(Result::<(), Error>::Ok(())),
    ;
}

/// Stand-in backend for a disabled action: it never performs anything and
/// always reports success.
pub struct DisabledAction {}

impl Action for DisabledAction {
    open spec fn completes_ok(&self) -> bool {
        true
    }

    fn trigger(&self, timeout: u64, placeholders: PlaceholderMap) -> (r: Option<
        Result<(), Error>,
    >) {
        Some(Ok(()))
    }
}

/// The backend selected at wiring time: the configured one, or the disabled
/// stand-in.
pub enum Backend<A: Action> {
    Enabled(A),
    Disabled(DisabledAction),
}

impl<A: Action> Action for Backend<A> {
    open spec fn completes_ok(&self) -> bool {
        match self {
            Backend::Enabled(a) => a.completes_ok(),
            Backend::Disabled(_) => true,
        }
    }

    fn trigger(&self, timeout: u64, placeholders: PlaceholderMap) -> (r: Option<
        Result<(), Error>,
    >) {
        match self {
            Backend::Enabled(a) => a.trigger(timeout, placeholders),
            Backend::Disabled(d) => d.trigger(timeout, placeholders),
        }
    }
}

/// Wraps a concrete backend with a name, a timeout and static placeholder
/// values; enforces the timeout on every trigger.
pub struct ActionBase<T: Action> {
    pub name: String,
    pub timeout: u64,
    pub placeholders: PlaceholderMap,
    pub action: T,
}

impl<T: Action> ActionBase<T> {
    /// Construction requires a non-empty name and a positive timeout.
    pub fn new(name: String, timeout: u64, placeholders: PlaceholderMap, action: T) -> (r: Result<
        ActionBase<T>,
        Error,
    >)
        ensures
            name@.len() == 0 ==> (r matches Err(e) && e.0@ == "'name' cannot be empty."@),
            name@.len() > 0 && timeout == 0 ==> (r matches Err(e) && e.0@
                == "'timeout' cannot be 0."@),
            name@.len() > 0 && timeout > 0 ==> r == Ok::<ActionBase<T>, Error>(
                (ActionBase { name, timeout, placeholders, action }),
            ),
    {
        if name.as_str().is_empty() {
            Err(Error(String::from_str("'name' cannot be empty.")))
        } else if timeout == 0 {
            Err(Error(String::from_str("'timeout' cannot be 0.")))
        } else {
            Ok(ActionBase { name, timeout, placeholders, action })
        }
    }

    /// Merges `action_name` and the action's static placeholders into the
    /// caller-supplied map; values already supplied by the caller win, and
    /// `action_name` too is added only when the caller did not set it.
    pub fn add_placeholders(&self, placeholders: &mut PlaceholderMap)
        ensures
            final(placeholders)@ == self.placeholders@.insert(
                "action_name"@,
                self.name@,
            ).union_prefer_right(old(placeholders)@),
    {
        let mut statics = self.placeholders.clone();
        statics.insert(String::from_str("action_name"), self.name.clone());
        merge_placeholders(placeholders, &statics);
    }

    /// The message of the timeout error for this action.
    pub open spec fn timeout_message(&self) -> Seq<char> {
        "Action '"@ + self.name@ + "' timed out after "@ + spec_decimal(self.timeout as nat)
            + " seconds."@
    }

    /// Folds the raced backend outcome into the trigger result: an outcome
    /// that arrived in time is returned unchanged; an abandoned backend
    /// becomes a timeout error carrying the action's name and timeout.
    pub fn resolve_outcome(&self, outcome: Option<Result<(), Error>>) -> (r: Result<(), Error>)
        ensures
            outcome matches Some(x) ==> r == x,
            outcome is None ==> (r matches Err(e) && e.0@ == self.timeout_message()),
    {
        match outcome {
            Some(x) => x,
            None => {
                let mut msg = String::from_str("Action '");
                msg.append(self.name.as_str());
                msg.append("' timed out after ");
                let secs = decimal_string(self.timeout);
                msg.append(secs.as_str());
                msg.append(" seconds.");
                Err(Error(msg))
            },
        }
    }

    /// Resolves the placeholders and makes one timeout-bounded attempt at the
    /// backend; an abandoned backend yields the timeout error. A backend that
    /// always completes successfully makes the trigger succeed.
    pub fn trigger(&self, placeholders: PlaceholderMap) -> (r: Result<(), Error>)
        ensures
            self.action.completes_ok() ==> r is Ok,
    {
        let mut placeholders = placeholders;
        self.add_placeholders(&mut placeholders);
        let outcome = self.action.trigger(self.timeout, placeholders);
        self.resolve_outcome(outcome)
    }
}

/// Relies on `Arc::clone`: the clone is a handle to the same shared value.
#[verifier::external_body]
fn share<T>(a: &Arc<T>) -> (r: Arc<T>)
    ensures
        r == *a,
{
    Arc::clone(a)
}

/// The first entry with the given key, if any.
spec fn lookup<A: Action>(
    s: Seq<(String, Arc<ActionBase<Backend<A>>>)>,
    k: Seq<char>,
) -> Option<Arc<ActionBase<Backend<A>>>>
    decreases s.len(),
{
    if s.len() == 0 {
        None
    } else if s[0].0@ == k {
        Some(s[0].1)
    } else {
        lookup(s.drop_first(), k)
    }
}

/// Process-wide registry from action name to a shared action instance; built
/// once at startup from configuration and read-only thereafter.
pub struct ActionMap<A: Action> {
    entries: Vec<(String, Arc<ActionBase<Backend<A>>>)>,
}

impl<A: Action> ActionMap<A> {
    /// The action registered under `name`, if any.
    pub closed spec fn spec_get(&self, name: Seq<char>) -> Option<Arc<ActionBase<Backend<A>>>> {
        lookup(self.entries@, name)
    }

    /// An empty registry.
    pub fn new() -> (r: Self)
        ensures
            forall|k: Seq<char>| r.spec_get(k) is None,
    {
        ActionMap { entries: Vec::new() }
    }

    /// Registers `action` under `name`, superseding an earlier registration.
    pub fn add(&mut self, name: String, action: Arc<ActionBase<Backend<A>>>)
        ensures
            forall|k: Seq<char>|
                final(self).spec_get(k) == if k == name@ {
                    Some(action)
                } else {
                    old(self).spec_get(k)
                },
    {
        self.entries.insert(0, (name, action));
        proof {
            assert(self.entries@.drop_first() =~= old(self).entries@);
            assert forall|k: Seq<char>|
                self.spec_get(k) == if k == name@ {
                    Some(action)
                } else {
                    old(self).spec_get(k)
                } by {
                assert(self.entries@[0] == (name, action));
            }
        }
    }
}

/// Resolves a named action from the registry; the name must be non-empty and
/// registered.
pub fn get_action<A: Action>(action: &String, actions: &ActionMap<A>) -> (r: Result<
    Arc<ActionBase<Backend<A>>>,
    Error,
>)
    ensures
        action@.len() == 0 ==> (r matches Err(e) && e.0@ == "'name' cannot be empty."@),
        action@.len() > 0 ==> match actions.spec_get(action@) {
            Some(a) => r == Ok::<Arc<ActionBase<Backend<A>>>, Error>(a),
            None => r matches Err(e) && e.0@ == "Action '"@ + action@ + "' not found."@,
        },
{
    if action.as_str().is_empty() {
        return Err(Error(String::from_str("'name' cannot be empty.")));
    }
    let n = actions.entries.len();
    let mut i: usize = 0;
    proof {
        assert(actions.entries@.skip(0) =~= actions.entries@);
    }
    while i < n
        invariant
            0 <= i <= n,
            n == actions.entries@.len(),
            action@.len() > 0,
            lookup(actions.entries@.skip(i as int), action@) == lookup(actions.entries@, action@),
        decreases n - i,
    {
        if actions.entries[i].0 == *action {
            proof {
                assert(actions.entries@.skip(i as int)[0] == actions.entries@[i as int]);
            }
            return Ok(share(&actions.entries[i].1));
        }
        proof {
            assert(actions.entries@.skip(i as int).drop_first() =~= actions.entries@.skip(
                i as int + 1,
            ));
            assert(actions.entries@.skip(i as int)[0] == actions.entries@[i as int]);
        }
        i += 1;
    }
    proof {
        assert(actions.entries@.skip(n as int) =~= Seq::<
            (String, Arc<ActionBase<Backend<A>>>),
        >::empty());
    }
    let mut msg = String::from_str("Action '");
    msg.append(action.as_str());
    msg.append("' not found.");
    Err(Error(msg))
}

/// Builds the shared action for one action configuration: the configured
/// backend when enabled, the disabled stand-in when the configuration says
/// so. An action constructed as disabled never invokes any backend and every
/// trigger of it succeeds.
pub fn from_action_config<A: Action>(action_config: &config::Action, backend: A) -> (r: Result<
    Arc<ActionBase<Backend<A>>>,
    Error,
>)
    ensures
        action_config.name@.len() == 0 ==> (r matches Err(e) && e.0@
            == "'name' cannot be empty."@),
        action_config.name@.len() > 0 && action_config.timeout == 0 ==> (r matches Err(e) && e.0@
            == "'timeout' cannot be 0."@),
        action_config.name@.len() > 0 && action_config.timeout > 0 ==> (r matches Ok(a)
            && a.name@ == action_config.name@ && a.timeout == action_config.timeout as u64
            && a.placeholders@ == action_config.placeholders@ && ((a.action matches Backend::Disabled(_))
            <==> action_config.disable) && (!action_config.disable ==> a.action
            == Backend::Enabled(backend))),
{
    let base = if action_config.disable {
        ActionBase::new(
            action_config.name.clone(),
            action_config.timeout as u64,
            action_config.placeholders.clone(),
            Backend::Disabled(DisabledAction {}),
        )
    } else {
        ActionBase::new(
            action_config.name.clone(),
            action_config.timeout as u64,
            action_config.placeholders.clone(),
            Backend::Enabled(backend),
        )
    };
    match base {
        Ok(a) => Ok(Arc::new(a)),
        Err(e) => Err(e),
    }
}

} // verus!
