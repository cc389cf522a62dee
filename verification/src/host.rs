//! The application as a whole: what it is configured with, and how it ends.
use vstd::prelude::*;

verus! {

/// What the application is configured with.
#[derive(Debug)]
pub struct AppConfig {
    pub data_path: String,
}

/// A step on the way down.
#[derive(Debug)]
pub enum ShutdownStep {
    /// Leave and close the documents of all exchanges.
    Exchanges,
    /// Shut the node down.
    Node,
    /// Remove all data below a path.
    RemoveData(String),
}

/// What of the application decides how it ends.
pub struct AppHost {
    config: AppConfig,
    reset_flag: bool,
    node_up: bool,
}

/// The steps on the way down: the data is removed, last of all, where a reset was
/// asked for.
pub open spec fn shuts_down(steps: Seq<ShutdownStep>, reset: bool, data_path: Seq<char>) -> bool {
    &&& steps.len() == if reset {
        3int
    } else {
        2
    }
    &&& steps[0] is Exchanges
    &&& steps[1] is Node
    &&& reset ==> steps[2] is RemoveData && steps[2]->RemoveData_0@ == data_path
}

impl AppHost {
    /// Where the data is.
    pub closed spec fn data_path(self) -> Seq<char> {
        self.config.data_path@
    }

    /// Whether a reset was asked for.
    pub closed spec fn resets(self) -> bool {
        self.reset_flag
    }

    /// Whether the node is up.
    pub closed spec fn is_up(self) -> bool {
        self.node_up
    }

    /// An application whose node is up.
    pub fn new(config: AppConfig) -> (host: AppHost)
        ensures
            host.data_path() == config.data_path@,
            !host.resets(),
            host.is_up(),
    {
        AppHost { config, reset_flag: false, node_up: true }
    }

    /// Asks that all data be removed at the end.
    pub fn set_reset_flag(&mut self)
        ensures
            final(self).resets(),
            final(self).data_path() == old(self).data_path(),
            final(self).is_up() == old(self).is_up(),
    {
        self.reset_flag = true;
    }

    /// Whether the node is up.
    pub fn node_is_up(&self) -> (up: bool)
        ensures
            up == self.is_up(),
    {
        self.node_up
    }

    /// The steps on the way down, in their order. The node goes down once.
    pub fn shutdown(&mut self) -> (steps: Vec<ShutdownStep>)
        requires
            old(self).is_up(),
        ensures
            shuts_down(steps@, old(self).resets(), old(self).data_path()),
            !final(self).is_up(),
            final(self).resets() == old(self).resets(),
            final(self).data_path() == old(self).data_path(),
    {
        self.node_up = false;
        let mut steps = vec![ShutdownStep::Exchanges, ShutdownStep::Node];
        if self.reset_flag {
            steps.push(ShutdownStep::RemoveData(self.config.data_path.clone()));
        }
        steps
    }
}

/// Data is removed on the way down exactly where a reset was asked for: that of the
/// configured path, once, and only after the exchanges and then the node have gone down.
pub proof fn data_goes_only_on_reset(steps: Seq<ShutdownStep>, reset: bool, path: Seq<char>)
    requires
        shuts_down(steps, reset, path),
    ensures
        (exists|i: int| 0 <= i < steps.len() && (#[trigger] steps[i]) is RemoveData) <==> reset,
        forall|i: int|
            0 <= i < steps.len() && (#[trigger] steps[i]) is RemoveData ==> i == 2
                && steps[i]->RemoveData_0@ == path,
        steps.len() >= 2,
        forall|i: int|
            0 <= i < steps.len() ==> ((#[trigger] steps[i]) is Exchanges <==> i == 0) && (
            steps[i] is Node <==> i == 1),
{
    if reset {
        assert(steps[2] is RemoveData);
    }
}

} // verus!
