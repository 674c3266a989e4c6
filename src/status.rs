use vstd::prelude::*;

verus! {

/// Overall status when every invocation exited with code 0.
pub const SUCCESS: u8 = 0;

/// Overall status when some invocation exited non-zero or was signaled.
pub const SOME_FAILED: u8 = 123;

/// Overall status when the run itself could not go on, its slot accounting
/// having been found broken.
pub const RUN_FAILED: u8 = 125;

/// Overall status when a command was found but could not be executed.
pub const NOT_EXECUTABLE: u8 = 126;

/// Overall status when a command could not be found.
pub const NOT_FOUND: u8 = 127;

/// What one invocation of the command came to.
#[derive(Clone, Copy, Debug, PartialEq, Eq, Structural)]
pub enum InvocationResult {
    /// The process ran to completion with this exit code.
    Exited(u8),
    /// The process was terminated by this signal.
    Signaled(i32),
    /// The command could not be found.
    NotFound,
    /// The command was found but could not be executed.
    NotExecutable,
}

impl InvocationResult {
    /// The invocation ran and exited with code 0.
    pub open spec fn spec_succeeded(self) -> bool {
        self == InvocationResult::Exited(0)
    }

    /// No process could be started for the invocation.
    pub open spec fn spec_spawn_failed(self) -> bool {
        self is NotFound || self is NotExecutable
    }

    pub fn succeeded(&self) -> (r: bool)
        ensures
            r == self.spec_succeeded(),
    {
        match self {
            InvocationResult::Exited(c) => *c == 0,
            _ => false,
        }
    }

    pub fn spawn_failed(&self) -> (r: bool)
        ensures
            r == self.spec_spawn_failed(),
    {
        match self {
            InvocationResult::NotFound | InvocationResult::NotExecutable => true,
            _ => false,
        }
    }
}

pub open spec fn all_succeeded(rs: Seq<InvocationResult>) -> bool {
    forall|i: int| 0 <= i < rs.len() ==> (#[trigger] rs[i]).spec_succeeded()
}

pub open spec fn any_not_found(rs: Seq<InvocationResult>) -> bool {
    exists|i: int| 0 <= i < rs.len() && #[trigger] rs[i] == InvocationResult::NotFound
}

pub open spec fn any_not_executable(rs: Seq<InvocationResult>) -> bool {
    exists|i: int| 0 <= i < rs.len() && #[trigger] rs[i] == InvocationResult::NotExecutable
}

/// The overall status of a run whose invocations came to `rs`, whatever the
/// order in which they completed: success when all exited with 0; otherwise a
/// command that could not be found, then one that could not be executed; and
/// otherwise some invocation failed.
pub open spec fn overall_status(rs: Seq<InvocationResult>) -> u8 {
    if all_succeeded(rs) {
        SUCCESS
    } else if any_not_found(rs) {
        NOT_FOUND
    } else if any_not_executable(rs) {
        NOT_EXECUTABLE
    } else {
        SOME_FAILED
    }
}

/// The overall status of the collected results.
pub fn aggregate(results: &[InvocationResult]) -> (r: u8)
    ensures
        r == overall_status(results@),
{
    let mut all_ok = true;
    let mut not_found = false;
    let mut not_executable = false;
    let mut i: usize = 0;
    while i < results.len()
        invariant
            i <= results@.len(),
            all_ok == all_succeeded(results@.take(i as int)),
            not_found == any_not_found(results@.take(i as int)),
            not_executable == any_not_executable(results@.take(i as int)),
        decreases results@.len() - i,
    {
        let ghost pre = results@.take(i as int);
        let ghost post = results@.take(i + 1);
        assert(post =~= pre.push(results@[i as int]));
        let r = results[i];
        if !r.succeeded() {
            all_ok = false;
        }
        match r {
            InvocationResult::NotFound => {
                not_found = true;
            },
            InvocationResult::NotExecutable => {
                not_executable = true;
            },
            _ => {},
        }
        assert(all_ok == all_succeeded(post)) by {
            if !all_ok {
                if !r.spec_succeeded() {
                    assert(!post[i as int].spec_succeeded());
                } else {
                    let k = choose|k: int| 0 <= k < pre.len() && !(#[trigger] pre[k]).spec_succeeded();
                    assert(!post[k].spec_succeeded());
                }
            }
        }
        assert(not_found == any_not_found(post)) by {
            if not_found {
                if r == InvocationResult::NotFound {
                    assert(post[i as int] == InvocationResult::NotFound);
                } else {
                    let k = choose|k: int| 0 <= k < pre.len() && #[trigger] pre[k] == InvocationResult::NotFound;
                    assert(post[k] == InvocationResult::NotFound);
                }
            } else {
                assert forall|k: int| 0 <= k < post.len() implies #[trigger] post[k] != InvocationResult::NotFound by {
                    if k < pre.len() {
                        assert(post[k] == pre[k]);
                    }
                }
            }
        }
        assert(not_executable == any_not_executable(post)) by {
            if not_executable {
                if r == InvocationResult::NotExecutable {
                    assert(post[i as int] == InvocationResult::NotExecutable);
                } else {
                    let k = choose|k: int| 0 <= k < pre.len() && #[trigger] pre[k] == InvocationResult::NotExecutable;
                    assert(post[k] == InvocationResult::NotExecutable);
                }
            } else {
                assert forall|k: int| 0 <= k < post.len() implies #[trigger] post[k] != InvocationResult::NotExecutable by {
                    if k < pre.len() {
                        assert(post[k] == pre[k]);
                    }
                }
            }
        }
        i = i + 1;
    }
    assert(results@.take(i as int) =~= results@);
    if all_ok {
        SUCCESS
    } else if not_found {
        NOT_FOUND
    } else if not_executable {
        NOT_EXECUTABLE
    } else {
        SOME_FAILED
    }
}

/// When every invocation exits with code 0, the run succeeds.
pub proof fn lemma_all_zero_is_success(rs: Seq<InvocationResult>)
    requires
        forall|i: int| 0 <= i < rs.len() ==> #[trigger] rs[i] == InvocationResult::Exited(0),
    ensures
        overall_status(rs) == SUCCESS,
{
}

/// When some invocation exits with a non-zero code and every process could be
/// started, the run reports that some invocations failed.
pub proof fn lemma_nonzero_exit_is_some_failed(rs: Seq<InvocationResult>, k: int, code: u8)
    requires
        0 <= k < rs.len(),
        rs[k] == InvocationResult::Exited(code),
        code != 0,
        forall|i: int| 0 <= i < rs.len() ==> !(#[trigger] rs[i]).spec_spawn_failed(),
    ensures
        overall_status(rs) == SOME_FAILED,
{
    assert(!rs[k].spec_succeeded());
    assert(!any_not_found(rs)) by {
        assert forall|i: int| 0 <= i < rs.len() implies #[trigger] rs[i] != InvocationResult::NotFound by {
            assert(!rs[i].spec_spawn_failed());
        }
    }
    assert(!any_not_executable(rs)) by {
        assert forall|i: int| 0 <= i < rs.len() implies #[trigger] rs[i] != InvocationResult::NotExecutable by {
            assert(!rs[i].spec_spawn_failed());
        }
    }
}

/// When some process could not be started, the run reports a command that
/// could not be found (127) or executed (126), whatever else came out: a
/// missing command wins over one that cannot be executed, and both win over
/// non-zero exits.
pub proof fn lemma_spawn_failure_wins(rs: Seq<InvocationResult>, k: int)
    requires
        0 <= k < rs.len(),
        rs[k].spec_spawn_failed(),
    ensures
        overall_status(rs) == NOT_FOUND || overall_status(rs) == NOT_EXECUTABLE,
        overall_status(rs) == NOT_FOUND <==> any_not_found(rs),
{
    assert(!rs[k].spec_succeeded());
    if !any_not_found(rs) {
        assert(rs[k] == InvocationResult::NotExecutable);
    }
}

} // verus!
