use vstd::prelude::*;

verus! {

/// Why a run configuration was refused.
#[derive(Clone, Copy, Debug, PartialEq, Eq, Structural)]
pub enum ConfigError {
    /// Every batch must be able to hold at least one token.
    ZeroMaxArgs,
}

/// The settings of one run, checked once before any batch is built.
#[derive(Clone, Copy, Debug, PartialEq, Eq, Structural)]
pub struct RunConfig {
    /// The most tokens in one batch; at least 1.
    pub max_args: usize,
    /// The most invocations running at once; 0 for no bound.
    pub max_procs: usize,
}

impl RunConfig {
    pub open spec fn wf(&self) -> bool {
        self.max_args >= 1
    }

    /// Checks the settings: a bound of 0 tokens per batch is refused.
    pub fn new(max_args: usize, max_procs: usize) -> (r: Result<RunConfig, ConfigError>)
        ensures
            max_args == 0 ==> r == Err::<RunConfig, _>(ConfigError::ZeroMaxArgs),
            max_args >= 1 ==> r == Ok::<_, ConfigError>(RunConfig { max_args, max_procs }),
            r matches Ok(c) ==> c.wf(),
    {
        if max_args == 0 {
            Err(ConfigError::ZeroMaxArgs)
        } else {
            Ok(RunConfig { max_args, max_procs })
        }
    }

    /// Whether any number of invocations may run at once.
    pub fn unbounded(&self) -> (r: bool)
        ensures
            r == (self.max_procs == 0),
    {
        self.max_procs == 0
    }
}

} // verus!
