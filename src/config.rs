//! Request descriptors, their validation, and the handlers that judge them.
use vstd::prelude::*;
use crate::table::{entry_views, keys_unique, pairs_to_map, upsert};

verus! {

/// A named request descriptor with a timeout.
pub struct Config {
    pub name: String,
    pub timeout: u32,
}

/// What is wrong with a descriptor.
#[derive(Debug, Clone, Copy, PartialEq, Eq, Structural)]
pub enum ConfigFault {
    EmptyName,
    ZeroTimeout,
}

/// A descriptor failed validation.
#[derive(Debug, Clone, Copy, PartialEq, Eq, Structural)]
pub enum ValidationError {
    InvalidConfig(ConfigFault),
}

/// A descriptor is valid when its name is non-empty and its timeout nonzero.
pub open spec fn config_valid(c: Config) -> bool {
    c.name@.len() > 0 && c.timeout > 0
}

impl Config {
    pub fn new(name: String, timeout: u32) -> (r: Self)
        ensures
            r.name == name,
            r.timeout == timeout,
    {
        Config { name, timeout }
    }

    /// Checks the name first, then the timeout.
    pub fn validate(&self) -> (r: Result<(), ValidationError>)
        ensures
            r is Ok <==> config_valid(*self),
            self.name@.len() == 0 ==> r == Err::<(), ValidationError>(
                ValidationError::InvalidConfig(ConfigFault::EmptyName),
            ),
            self.name@.len() > 0 && self.timeout == 0 ==> r == Err::<(), ValidationError>(
                ValidationError::InvalidConfig(ConfigFault::ZeroTimeout),
            ),
    {
        if self.name.as_str().is_empty() {
            return Err(ValidationError::InvalidConfig(ConfigFault::EmptyName));
        }
        if self.timeout == 0 {
            return Err(ValidationError::InvalidConfig(ConfigFault::ZeroTimeout));
        }
        Ok(())
    }
}

/// The outcome recorded for a key.
#[derive(Debug, Clone, Copy, PartialEq, Eq, Structural)]
pub enum Status {
    Active,
    Inactive,
    Pending(u32),
}

impl View for Status {
    type V = Status;

    open spec fn view(&self) -> Status {
        *self
    }
}

/// A capability that accepts or rejects descriptors.
pub trait Handler {
    /// Whether this handler accepts `config`.
    spec fn accepts(&self, config: &Config) -> bool;

    /// Judges `config`; succeeds exactly when the handler accepts it.
    fn handle(&self, config: &Config) -> (r: Result<(), ValidationError>)
        ensures
            r is Ok <==> self.accepts(config),
    ;
}

/// The handler that applies `Config::validate`.
pub struct DefaultHandler;

impl Handler for DefaultHandler {
    open spec fn accepts(&self, config: &Config) -> bool {
        config_valid(*config)
    }

    fn handle(&self, config: &Config) -> (r: Result<(), ValidationError>) {
        config.validate()
    }
}

/// The status that a handler's verdict gives.
pub open spec fn verdict(accepted: bool) -> Status {
    if accepted {
        Status::Active
    } else {
        Status::Inactive
    }
}

/// The (name, status) record of each descriptor, in input order.
pub open spec fn verdicts<T: Handler>(handler: T, configs: Seq<Config>) -> Seq<(Seq<char>, Status)> {
    configs.map_values(|c: Config| (c.name@, verdict(handler.accepts(&c))))
}

/// Runs every descriptor through the handler, in order, and records each
/// name as active or inactive; a later descriptor of a name overrides an
/// earlier one.
pub fn process_items<T: Handler>(handler: &T, configs: Vec<Config>) -> (r: Vec<(String, Status)>)
    ensures
        keys_unique(entry_views(r@)),
        pairs_to_map(entry_views(r@)) == pairs_to_map(verdicts(*handler, configs@)),
{
    let mut results: Vec<(String, Status)> = Vec::new();
    let mut i: usize = 0;
    assert(entry_views(results@) =~= Seq::empty());
    assert(verdicts(*handler, configs@).subrange(0, 0) =~= Seq::empty());
    while i < configs.len()
        invariant
            i <= configs@.len(),
            keys_unique(entry_views(results@)),
            pairs_to_map(entry_views(results@)) == pairs_to_map(
                verdicts(*handler, configs@).subrange(0, i as int),
            ),
        decreases configs@.len() - i,
    {
        let config = &configs[i];
        let status = if handler.handle(config).is_ok() {
            Status::Active
        } else {
            Status::Inactive
        };
        upsert(&mut results, config.name.clone(), status);
        proof {
            let vs = verdicts(*handler, configs@);
            assert(vs.subrange(0, i + 1).drop_last() =~= vs.subrange(0, i as int));
        }
        i = i + 1;
    }
    assert(verdicts(*handler, configs@).subrange(0, i as int) =~= verdicts(*handler, configs@));
    results
}

} // verus!
